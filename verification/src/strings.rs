//! Character-level text helpers: decimal numerals, repetition, and the split
//! of a text into lines.

use vstd::prelude::*;

verus! {

/// The decimal digit `d` (for `0 <= d < 10`).
pub open spec fn digit(d: int) -> char {
    if d == 0 {
        '0'
    } else if d == 1 {
        '1'
    } else if d == 2 {
        '2'
    } else if d == 3 {
        '3'
    } else if d == 4 {
        '4'
    } else if d == 5 {
        '5'
    } else if d == 6 {
        '6'
    } else if d == 7 {
        '7'
    } else if d == 8 {
        '8'
    } else {
        '9'
    }
}

/// The decimal numeral of `n`, without leading zeros.
pub open spec fn decimal(n: nat) -> Seq<char>
    decreases n,
{
    if n < 10 {
        seq![digit(n as int)]
    } else {
        decimal(n / 10).push(digit((n % 10) as int))
    }
}

/// `s` written `k` times in a row.
pub open spec fn repeat(s: Seq<char>, k: nat) -> Seq<char>
    decreases k,
{
    if k == 0 {
        Seq::<char>::empty()
    } else {
        repeat(s, (k - 1) as nat) + s
    }
}

/// A line without the carriage return that ends it, if one does.
pub open spec fn strip_cr(line: Seq<char>) -> Seq<char> {
    if line.len() > 0 && line.last() == '\r' {
        line.drop_last()
    } else {
        line
    }
}

/// The lines of `cur + rest`, where `cur` is the part of the current line
/// already read and holds no line feed. A line ends at a line feed, and a
/// carriage return just before it is dropped; the last line needs no line
/// feed, and an empty last line is no line.
pub open spec fn lines_from(cur: Seq<char>, rest: Seq<char>) -> Seq<Seq<char>>
    decreases rest.len(),
{
    if rest.len() == 0 {
        if cur.len() == 0 {
            Seq::<Seq<char>>::empty()
        } else {
            seq![cur]
        }
    } else if rest[0] == '\n' {
        seq![strip_cr(cur)] + lines_from(Seq::<char>::empty(), rest.drop_first())
    } else {
        lines_from(cur.push(rest[0]), rest.drop_first())
    }
}

/// The lines of `s`, as `str::lines` yields them.
pub open spec fn str_lines(s: Seq<char>) -> Seq<Seq<char>> {
    lines_from(Seq::<char>::empty(), s)
}

/// The characters of an optional string.
pub open spec fn opt_chars(o: Option<String>) -> Option<Seq<char>> {
    match o {
        Some(s) => Some(s@),
        None => None,
    }
}

/// Appends one character (`String::push`).
#[verifier::external_body]
pub(crate) fn push_char(s: &mut String, c: char)
    ensures
        final(s)@ == old(s)@.push(c),
{
    s.push(c);
}

/// The digit character of `d`.
fn digit_char(d: usize) -> (c: char)
    requires
        d < 10,
    ensures
        c == digit(d as int),
{
    match d {
        0 => '0',
        1 => '1',
        2 => '2',
        3 => '3',
        4 => '4',
        5 => '5',
        6 => '6',
        7 => '7',
        8 => '8',
        _ => '9',
    }
}

/// The decimal numeral of `n`.
pub fn decimal_string(n: usize) -> (r: String)
    ensures
        r@ == decimal(n as nat),
    decreases n,
{
    if n < 10 {
        let mut s = String::new();
        push_char(&mut s, digit_char(n));
        s
    } else {
        let mut s = decimal_string(n / 10);
        push_char(&mut s, digit_char(n % 10));
        s
    }
}

/// `s` written `k` times in a row.
pub fn repeat_str(s: &str, k: usize) -> (r: String)
    ensures
        r@ == repeat(s@, k as nat),
{
    let mut r = String::new();
    let mut i: usize = 0;
    while i < k
        invariant
            i <= k,
            r@ == repeat(s@, i as nat),
        decreases k - i,
    {
        r.append(s);
        i = i + 1;
    }
    r
}

/// Removing the carriage return of a line.
fn strip_cr_string(line: String) -> (r: String)
    ensures
        r@ == strip_cr(line@),
{
    let n = line.as_str().unicode_len();
    if n > 0 && line.as_str().get_char(n - 1) == '\r' {
        let s = line.as_str().substring_char(0, n - 1);
        String::from_str(s)
    } else {
        line
    }
}

/// The lines of `s`, as `str::lines` yields them.
pub fn split_lines(s: &str) -> (r: Vec<String>)
    ensures
        r@.map_values(|x: String| x@) == str_lines(s@),
{
    let mut done: Vec<String> = Vec::new();
    let mut cur = String::new();
    let ghost all = s@;
    let mut it = s.chars();
    assert(all.skip(0) =~= all);
    assert(done@.map_values(|x: String| x@) =~= Seq::<Seq<char>>::empty());
    for c in iter: it
        invariant
            iter.seq() == all,
            str_lines(all) == done@.map_values(|x: String| x@) + lines_from(
                cur@,
                all.skip(iter.index() as int),
            ),
    {
        let ghost rest = all.skip(iter.index() as int);
        assert(rest.drop_first() =~= all.skip(iter.index() + 1));
        if c == '\n' {
            let line = strip_cr_string(cur);
            let ghost before = done@.map_values(|x: String| x@);
            done.push(line);
            assert(done@.map_values(|x: String| x@) =~= before.push(strip_cr(cur@)));
            cur = String::new();
        } else {
            push_char(&mut cur, c);
        }
    }
    if cur.as_str().unicode_len() > 0 {
        let ghost before = done@.map_values(|x: String| x@);
        done.push(cur);
        assert(done@.map_values(|x: String| x@) =~= before.push(cur@));
    }
    done
}

/// The number of lines of `s` (as `str::lines` counts them), cut to 16 bits
/// as `as u16` cuts it.
pub fn line_count_u16(s: &str) -> (r: u16)
    ensures
        r as int == str_lines(s@).len() % 0x10000,
{
    let mut count: u16 = 0;
    let mut open_line = false;
    let ghost mut cur: Seq<char> = Seq::empty();
    let ghost mut done: nat = 0;
    let ghost all = s@;
    let mut it = s.chars();
    assert(all.skip(0) =~= all);
    for c in iter: it
        invariant
            iter.seq() == all,
            open_line == (cur.len() > 0),
            count as int == done % 0x10000,
            str_lines(all).len() == done + lines_from(cur, all.skip(iter.index() as int)).len(),
    {
        let ghost rest = all.skip(iter.index() as int);
        assert(rest.drop_first() =~= all.skip(iter.index() + 1));
        if c == '\n' {
            count = count.wrapping_add(1);
            open_line = false;
            proof {
                done = done + 1;
                cur = Seq::empty();
            }
        } else {
            open_line = true;
            proof {
                cur = cur.push(c);
            }
        }
    }
    if open_line {
        count = count.wrapping_add(1);
    }
    count
}

/// Whether every character of `d` is an ASCII digit.
pub open spec fn all_digits(d: Seq<char>) -> bool {
    forall|i: int| 0 <= i < d.len() ==> '0' <= #[trigger] d[i] <= '9'
}

/// The value of the decimal digits `d`.
pub open spec fn digits_value(d: Seq<char>) -> nat
    decreases d.len(),
{
    if d.len() == 0 {
        0
    } else {
        digits_value(d.drop_last()) * 10 + (d.last() as nat - '0' as nat) as nat
    }
}

/// The digits of an unsigned numeral: the text after an optional `+`.
pub open spec fn unsigned_digits(s: Seq<char>) -> Seq<char> {
    if s.len() > 0 && s[0] == '+' {
        s.drop_first()
    } else {
        s
    }
}

/// The value of the unsigned decimal numeral `s`, as `str::parse` reads it
/// for an unsigned type whose largest value is `max`: an optional `+`, then
/// one digit or more and nothing else, and a value up to `max`.
pub open spec fn parse_unsigned(s: Seq<char>, max: nat) -> Option<nat> {
    let d = unsigned_digits(s);
    if d.len() > 0 && all_digits(d) && digits_value(d) <= max {
        Some(digits_value(d))
    } else {
        None
    }
}

proof fn lemma_digits_value_grows(d: Seq<char>, e: Seq<char>)
    requires
        all_digits(d + e),
    ensures
        digits_value(d) <= digits_value(d + e),
    decreases e.len(),
{
    if e.len() > 0 {
        assert((d + e).drop_last() =~= d + e.drop_last());
        assert(all_digits(d + e.drop_last())) by {
            assert forall|i: int| 0 <= i < (d + e.drop_last()).len() implies '0' <= #[trigger] (d
                + e.drop_last())[i] <= '9' by {
                assert((d + e.drop_last())[i] == (d + e)[i]);
            }
        }
        lemma_digits_value_grows(d, e.drop_last());
    }
}

/// Reads an unsigned decimal numeral whose value may be at most `max`.
pub fn parse_unsigned_str(s: &str, max: u16) -> (r: Option<u16>)
    ensures
        match parse_unsigned(s@, max as nat) {
            Some(v) => r == Some(v as u16),
            None => r is None,
        },
{
    let n = s.unicode_len();
    let d = if n > 0 && s.get_char(0) == '+' {
        s.substring_char(1, n)
    } else {
        s
    };
    assert(d@ =~= unsigned_digits(s@));
    if d.unicode_len() == 0 {
        return None;
    }
    let ghost all = d@;
    let mut value: u32 = 0;
    let mut it = d.chars();
    assert(all.take(0) =~= Seq::<char>::empty());
    for c in iter: it
        invariant
            iter.seq() == all,
            all == unsigned_digits(s@),
            all.len() > 0,
            all_digits(all.take(iter.index() as int)),
            value as nat == digits_value(all.take(iter.index() as int)),
            value <= max,
    {
        let ghost k = iter.index() as int;
        assert(all.take(k + 1).drop_last() =~= all.take(k));
        assert(all.take(k + 1).last() == c);
        if c < '0' || c > '9' {
            assert(!all_digits(all));
            return None;
        }
        let digit = (c as u32) - ('0' as u32);
        let next = value * 10 + digit;
        assert(digits_value(all.take(k + 1)) == next as nat);
        assert(all_digits(all.take(k + 1))) by {
            assert forall|i: int| 0 <= i < all.take(k + 1).len() implies '0' <= #[trigger] all.take(
                k + 1,
            )[i] <= '9' by {
                if i < k {
                    assert(all.take(k + 1)[i] == all.take(k)[i]);
                }
            }
        }
        if next > max as u32 {
            proof {
                if all_digits(all) {
                    assert(all =~= all.take(k + 1) + all.skip(k + 1));
                    lemma_digits_value_grows(all.take(k + 1), all.skip(k + 1));
                }
            }
            return None;
        }
        value = next;
    }
    assert(all.take(all.len() as int) =~= all);
    Some(value as u16)
}

/// The text after the last `;` of `s`, or all of `s` when it holds none.
pub open spec fn last_field(s: Seq<char>) -> Seq<char>
    decreases s.len(),
{
    if s.len() == 0 {
        s
    } else if s.last() == ';' {
        Seq::<char>::empty()
    } else {
        last_field(s.drop_last()).push(s.last())
    }
}

/// The text after the last `;` of `s` (`s.rsplit(';').next()`).
pub fn last_field_str(s: &str) -> (r: String)
    ensures
        r@ == last_field(s@),
{
    let ghost all = s@;
    let mut field = String::new();
    let mut it = s.chars();
    assert(all.take(0) =~= Seq::<char>::empty());
    for c in iter: it
        invariant
            iter.seq() == all,
            field@ == last_field(all.take(iter.index() as int)),
    {
        let ghost k = iter.index() as int;
        assert(all.take(k + 1).drop_last() =~= all.take(k));
        assert(all.take(k + 1).last() == c);
        if c == ';' {
            field = String::new();
        } else {
            push_char(&mut field, c);
        }
    }
    assert(all.take(all.len() as int) =~= all);
    field
}

proof fn lemma_digit_value(d: int)
    requires
        0 <= d < 10,
    ensures
        '0' <= digit(d) <= '9',
        digit(d) as int - '0' as int == d,
{
}

pub proof fn lemma_decimal_digits(n: nat)
    ensures
        all_digits(decimal(n)),
        decimal(n).len() > 0,
        digits_value(decimal(n)) == n,
    decreases n,
{
    if n < 10 {
        lemma_digit_value(n as int);
        assert(decimal(n).drop_last() =~= Seq::<char>::empty());
        assert(digits_value(Seq::<char>::empty()) == 0);
        assert(digits_value(decimal(n)) == digits_value(decimal(n).drop_last()) * 10 + (
        decimal(n).last() as nat - '0' as nat) as nat);
    } else {
        lemma_digit_value((n % 10) as int);
        assert((n / 10) * 10 + n % 10 == n);
        lemma_decimal_digits(n / 10);
        let d = decimal(n / 10);
        assert(decimal(n).drop_last() =~= d);
        assert(digits_value(decimal(n)) == digits_value(d) * 10 + (decimal(n).last() as nat
            - '0' as nat) as nat);
        assert forall|i: int| 0 <= i < decimal(n).len() implies '0' <= #[trigger] decimal(n)[i]
            <= '9' by {
            if i < d.len() {
                assert(decimal(n)[i] == d[i]);
            }
        }
    }
}

/// Reading a decimal numeral gives back its number, up to the largest
/// value allowed.
pub proof fn lemma_parse_decimal(n: nat, max: nat)
    requires
        n <= max,
    ensures
        parse_unsigned(decimal(n), max) == Some(n),
{
    lemma_decimal_digits(n);
    assert(decimal(n)[0] != '+');
}

proof fn lemma_lines_from_no_feed(cur: Seq<char>, rest: Seq<char>)
    requires
        forall|i: int| 0 <= i < cur.len() ==> cur[i] != '\n',
    ensures
        forall|k: int, i: int|
            0 <= k < lines_from(cur, rest).len() && 0 <= i < lines_from(cur, rest)[k].len()
                ==> #[trigger] lines_from(cur, rest)[k][i] != '\n',
    decreases rest.len(),
{
    if rest.len() == 0 {
        if cur.len() > 0 {
            assert(lines_from(cur, rest) =~= seq![cur]);
        }
    } else {
        if rest[0] == '\n' {
            lemma_lines_from_no_feed(Seq::empty(), rest.drop_first());
            let tail = lines_from(Seq::<char>::empty(), rest.drop_first());
            let all = seq![strip_cr(cur)] + tail;
            assert(lines_from(cur, rest) == all);
            assert forall|k: int, i: int| 0 <= k < all.len() && 0 <= i < all[k].len() implies #[trigger] all[k][i]
                != '\n' by {
                if k > 0 {
                    assert(all[k] == tail[k - 1]);
                } else {
                    assert(strip_cr(cur)[i] == cur[i]);
                }
            }
        } else {
            let c2 = cur.push(rest[0]);
            assert forall|i: int| 0 <= i < c2.len() implies c2[i] != '\n' by {
                if i < cur.len() {
                    assert(c2[i] == cur[i]);
                }
            }
            lemma_lines_from_no_feed(c2, rest.drop_first());
            assert(lines_from(cur, rest) == lines_from(c2, rest.drop_first()));
        }
    }
}

/// No line of a text holds a line feed.
pub proof fn lemma_lines_hold_no_feed(s: Seq<char>)
    ensures
        forall|k: int, i: int|
            0 <= k < str_lines(s).len() && 0 <= i < str_lines(s)[k].len() ==> #[trigger] str_lines(
                s,
            )[k][i] != '\n',
{
    lemma_lines_from_no_feed(Seq::empty(), s);
}

/// A text without `;` is its own last field.
pub proof fn lemma_last_field_whole(s: Seq<char>)
    requires
        forall|i: int| 0 <= i < s.len() ==> s[i] != ';',
    ensures
        last_field(s) == s,
    decreases s.len(),
{
    if s.len() > 0 {
        lemma_last_field_whole(s.drop_last());
        assert(s.drop_last().push(s.last()) =~= s);
    }
}

} // verus!
