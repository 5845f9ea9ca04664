//! The port handshake: finding `SIDECAR_PORT=<digits>` in the sidecar's
//! output.
//!
//! The backend prints, once, a line of the exact form `SIDECAR_PORT=<digits>`
//! on its standard output; every other line on that stream is free-form
//! logging. For each line the reader trims surrounding whitespace, demands
//! the literal prefix, and parses the remainder as an unsigned 16-bit
//! integer. A malformed line (missing prefix, non-numeric remainder,
//! out-of-range value) is silently discarded: it may be a stray logging line
//! rather than backend misbehaviour, so it is never an error.

use vstd::prelude::*;
use vstd::arithmetic::div_mod::lemma_fundamental_div_mod;

use crate::port::PortCell;

verus! {

/// ASCII whitespace, as trimming understands it: space, tab, line feed,
/// form feed, carriage return.
pub open spec fn is_ws(b: u8) -> bool {
    b == 32 || b == 9 || b == 10 || b == 12 || b == 13
}

/// An ASCII decimal digit.
pub open spec fn is_digit(b: u8) -> bool {
    48 <= b <= 57
}

/// Every byte of `s` is a decimal digit.
pub open spec fn all_digits(s: Seq<u8>) -> bool {
    forall|i: int| 0 <= i < s.len() ==> is_digit(s[i])
}

/// The number that a sequence of decimal digits denotes, most significant
/// first. On bytes that are not digits the value is meaningless; every use
/// guards it with `all_digits`.
pub open spec fn digits_value(s: Seq<u8>) -> int
    decreases s.len(),
{
    if s.len() == 0 {
        0
    } else {
        digits_value(s.drop_last()) * 10 + (s.last() - 48)
    }
}

/// `s` without its leading whitespace.
pub open spec fn trim_front(s: Seq<u8>) -> Seq<u8>
    decreases s.len(),
{
    if s.len() > 0 && is_ws(s[0]) {
        trim_front(s.drop_first())
    } else {
        s
    }
}

/// `s` without its trailing whitespace.
pub open spec fn trim_back(s: Seq<u8>) -> Seq<u8>
    decreases s.len(),
{
    if s.len() > 0 && is_ws(s.last()) {
        trim_back(s.drop_last())
    } else {
        s
    }
}

/// `s` without surrounding whitespace.
pub open spec fn trimmed(s: Seq<u8>) -> Seq<u8> {
    trim_back(trim_front(s))
}

/// The byte form of the literal prefix `SIDECAR_PORT=`.
pub open spec fn handshake_prefix() -> Seq<u8> {
    seq![
        'S' as u8,
        'I' as u8,
        'D' as u8,
        'E' as u8,
        'C' as u8,
        'A' as u8,
        'R' as u8,
        '_' as u8,
        'P' as u8,
        'O' as u8,
        'R' as u8,
        'T' as u8,
        '=' as u8,
    ]
}

/// What one output line yields: the port, for a line that after trimming is
/// the prefix followed by decimal digits denoting a value at most 65535;
/// nothing, for every other line.
pub open spec fn spec_parse_port(line: Seq<u8>) -> Option<u16> {
    let t = trimmed(line);
    let rest = t.skip(13);
    if t.len() > 13 && t.subrange(0, 13) == handshake_prefix() && all_digits(rest)
        && digits_value(rest) <= 65535 {
        Some(digits_value(rest) as u16)
    } else {
        None
    }
}

/// The cell's value after one line is processed: the first writer wins, so a
/// cell already holding a port is unchanged, and an absent cell takes
/// whatever the line parses to.
pub open spec fn cell_after_line(cell: Option<u16>, line: Seq<u8>) -> Option<u16> {
    if cell is Some {
        cell
    } else {
        spec_parse_port(line)
    }
}

/// The k-th byte of the handshake prefix.
fn prefix_byte(k: usize) -> (b: u8)
    requires
        k < 13,
    ensures
        b == handshake_prefix()[k as int],
{
    if k == 0 {
        'S' as u8
    } else if k == 1 {
        'I' as u8
    } else if k == 2 {
        'D' as u8
    } else if k == 3 {
        'E' as u8
    } else if k == 4 {
        'C' as u8
    } else if k == 5 {
        'A' as u8
    } else if k == 6 {
        'R' as u8
    } else if k == 7 {
        '_' as u8
    } else if k == 8 {
        'P' as u8
    } else if k == 9 {
        'O' as u8
    } else if k == 10 {
        'R' as u8
    } else if k == 11 {
        'T' as u8
    } else {
        '=' as u8
    }
}

/// Whether `b` is whitespace that trimming removes.
fn is_ws_byte(b: u8) -> (r: bool)
    ensures
        r == is_ws(b),
{
    b == 32 || b == 9 || b == 10 || b == 12 || b == 13
}

/// Dropping the whitespace prefix up to `i` is all that `trim_front` does.
proof fn lemma_trim_front_at(s: Seq<u8>, i: int)
    requires
        0 <= i <= s.len(),
        forall|j: int| 0 <= j < i ==> is_ws(s[j]),
        i == s.len() || !is_ws(s[i]),
    ensures
        trim_front(s) == s.subrange(i, s.len() as int),
    decreases i,
{
    if i == 0 {
        assert(s.subrange(0, s.len() as int) =~= s);
    } else {
        let s1 = s.drop_first();
        assert(s1 =~= s.subrange(1, s.len() as int));
        lemma_trim_front_at(s1, i - 1);
        assert(s1.subrange(i - 1, s1.len() as int) =~= s.subrange(i, s.len() as int));
    }
}

/// Dropping the whitespace suffix from `i` on is all that `trim_back` does.
proof fn lemma_trim_back_at(s: Seq<u8>, i: int)
    requires
        0 <= i <= s.len(),
        forall|j: int| i <= j < s.len() ==> is_ws(s[j]),
        i == 0 || !is_ws(s[i - 1]),
    ensures
        trim_back(s) == s.subrange(0, i),
    decreases s.len() - i,
{
    if i == s.len() {
        if s.len() > 0 && is_ws(s.last()) {
            assert(false);
        }
        assert(s.subrange(0, s.len() as int) =~= s);
    } else {
        let s1 = s.drop_last();
        assert(s1 =~= s.subrange(0, s.len() - 1));
        lemma_trim_back_at(s1, i);
        assert(s1.subrange(0, i) =~= s.subrange(0, i));
    }
}

/// A digit appended on the right multiplies the value by ten and adds the
/// digit.
proof fn lemma_digits_value_push(s: Seq<u8>, b: u8)
    ensures
        digits_value(s.push(b)) == digits_value(s) * 10 + (b - 48),
{
    assert(s.push(b).drop_last() =~= s);
    assert(s.push(b).last() == b);
}

/// Parse one output line. Returns the port for a well-formed handshake line
/// and nothing for any other line.
pub fn parse_handshake_line(line: &[u8]) -> (r: Option<u16>)
    ensures
        r == spec_parse_port(line@),
{
    let n = line.len();
    let mut lo: usize = 0;
    while lo < n && is_ws_byte(line[lo])
        invariant
            0 <= lo <= n,
            n == line@.len(),
            forall|j: int| 0 <= j < lo ==> is_ws(line@[j]),
        decreases n - lo,
    {
        lo = lo + 1;
    }
    proof {
        lemma_trim_front_at(line@, lo as int);
    }
    let ghost front = line@.subrange(lo as int, n as int);
    let mut hi: usize = n;
    while hi > lo && is_ws_byte(line[hi - 1])
        invariant
            lo <= hi <= n,
            n == line@.len(),
            forall|j: int| hi <= j < n ==> is_ws(line@[j]),
        decreases hi,
    {
        hi = hi - 1;
    }
    proof {
        lemma_trim_back_at(front, hi - lo);
        assert(front.subrange(0, hi - lo) =~= line@.subrange(lo as int, hi as int));
        assert(trimmed(line@) == line@.subrange(lo as int, hi as int));
    }
    let ghost t = trimmed(line@);

    if hi - lo < 14 {
        // Too short for the prefix and at least one digit.
        return None;
    }
    let mut k: usize = 0;
    while k < 13
        invariant
            0 <= k <= 13,
            lo + 14 <= hi <= n,
            n == line@.len(),
            t == line@.subrange(lo as int, hi as int),
            t == trimmed(line@),
            forall|j: int| 0 <= j < k ==> t[j] == handshake_prefix()[j],
        decreases 13 - k,
    {
        if line[lo + k] != prefix_byte(k) {
            assert(t[k as int] != handshake_prefix()[k as int]);
            assert(t.subrange(0, 13) != handshake_prefix()) by {
                assert(t.subrange(0, 13)[k as int] != handshake_prefix()[k as int]);
            }
            return None;
        }
        assert(t[k as int] == handshake_prefix()[k as int]);
        k = k + 1;
    }
    proof {
        assert(t.subrange(0, 13) =~= handshake_prefix());
    }

    let ghost rest = t.skip(13);
    let mut val: u32 = 0;
    let mut i: usize = lo + 13;
    while i < hi
        invariant
            lo + 13 <= i <= hi <= n,
            n == line@.len(),
            t == line@.subrange(lo as int, hi as int),
            t == trimmed(line@),
            t.subrange(0, 13) == handshake_prefix(),
            rest == t.skip(13),
            all_digits(t.subrange(13, i - lo)),
            val <= 65535 ==> val == digits_value(t.subrange(13, i - lo)),
            val > 65535 ==> digits_value(t.subrange(13, i - lo)) > 65535,
            val <= 655359,
        decreases hi - i,
    {
        let b = line[i];
        assert(b == t[i - lo]);
        if b < 48 || b > 57 {
            assert(!is_digit(rest[i - lo - 13]));
            return None;
        }
        proof {
            let seen = t.subrange(13, i - lo);
            assert(seen.push(b) =~= t.subrange(13, i + 1 - lo));
            lemma_digits_value_push(seen, b);
        }
        if val <= 65535 {
            val = val * 10 + ((b - 48) as u32);
        }
        i = i + 1;
    }
    proof {
        assert(t.subrange(13, hi - lo) =~= rest);
    }
    if val <= 65535 {
        Some(val as u16)
    } else {
        None
    }
}

/// Feed one output line to the cell: parse it, and let the first discovered
/// port win. Malformed lines, and every line after a port is known, leave the
/// cell untouched.
pub fn process_line(cell: &mut PortCell, line: &[u8])
    ensures
        final(cell)@ == cell_after_line(old(cell)@, line@),
{
    match parse_handshake_line(line) {
        Some(p) => cell.record(p),
        None => (),
    }
}

/// The cell's value after a whole sequence of output lines, oldest first,
/// has been processed.
pub open spec fn cell_after_lines(cell: Option<u16>, lines: Seq<Seq<u8>>) -> Option<u16>
    decreases lines.len(),
{
    if lines.len() == 0 {
        cell
    } else {
        cell_after_lines(cell_after_line(cell, lines[0]), lines.drop_first())
    }
}

/// A cell that already holds a port is unmoved by any further lines.
proof fn lemma_cell_stays_set(cell: Option<u16>, lines: Seq<Seq<u8>>)
    requires
        cell is Some,
    ensures
        cell_after_lines(cell, lines) == cell,
    decreases lines.len(),
{
    if lines.len() > 0 {
        lemma_cell_stays_set(cell, lines.drop_first());
    }
}

/// Feed a batch of output lines to the cell, oldest first: the reader's loop
/// over the stream.
pub fn process_lines(cell: &mut PortCell, lines: &Vec<Vec<u8>>)
    ensures
        final(cell)@ == cell_after_lines(old(cell)@, lines.deep_view()),
{
    let ghost ls = lines.deep_view();
    proof {
        assert(ls.skip(0) =~= ls);
    }
    let n = lines.len();
    let mut i: usize = 0;
    while i < n
        invariant
            0 <= i <= n,
            n == lines@.len(),
            ls == lines.deep_view(),
            ls.len() == n,
            cell_after_lines(cell@, ls.skip(i as int)) == cell_after_lines(old(cell)@, ls),
        decreases n - i,
    {
        proof {
            assert(lines@[i as int].deep_view() =~= lines@[i as int]@);
            assert(ls.skip(i as int)[0] == lines@[i as int]@);
            assert(ls.skip(i as int).drop_first() =~= ls.skip(i as int + 1));
        }
        process_line(cell, lines[i].as_slice());
        i = i + 1;
    }
    proof {
        assert(ls.skip(n as int) =~= Seq::<Seq<u8>>::empty());
    }
}

/// The first occurrence is authoritative: over a whole stream of lines, an
/// absent cell ends holding the port of the first well-formed handshake
/// line, whatever noise precedes it and whatever lines follow it.
pub proof fn lemma_first_line_wins(lines: Seq<Seq<u8>>, i: int)
    requires
        0 <= i < lines.len(),
        spec_parse_port(lines[i]) is Some,
        forall|j: int| 0 <= j < i ==> spec_parse_port(lines[j]) is None,
    ensures
        cell_after_lines(None, lines) == spec_parse_port(lines[i]),
    decreases i,
{
    if i == 0 {
        lemma_cell_stays_set(spec_parse_port(lines[0]), lines.drop_first());
    } else {
        assert(spec_parse_port(lines[0]) is None);
        assert(forall|j: int|
            0 <= j < i - 1 ==> spec_parse_port(#[trigger] lines.drop_first()[j]) is None) by {
            assert(forall|j: int|
                0 <= j < i - 1 ==> #[trigger] lines.drop_first()[j] == lines[j + 1]);
        }
        assert(lines.drop_first()[i - 1] == lines[i]);
        lemma_first_line_wins(lines.drop_first(), i - 1);
    }
}

/// If no line of the stream ever carries a well-formed handshake, the cell
/// stays absent for good: the permanently unready state, which readers must
/// treat as valid rather than as a failure.
pub proof fn lemma_no_handshake_stays_absent(lines: Seq<Seq<u8>>)
    requires
        forall|j: int| 0 <= j < lines.len() ==> spec_parse_port(lines[j]) is None,
    ensures
        cell_after_lines(None, lines) == None::<u16>,
    decreases lines.len(),
{
    if lines.len() > 0 {
        assert(forall|j: int|
            0 <= j < lines.len() - 1 ==> spec_parse_port(#[trigger] lines.drop_first()[j])
                is None) by {
            assert(forall|j: int|
                0 <= j < lines.len() - 1 ==> #[trigger] lines.drop_first()[j] == lines[j + 1]);
        }
        lemma_no_handshake_stays_absent(lines.drop_first());
    }
}

/// Once the cell holds a port, processing any further line — well-formed or
/// not — leaves it unchanged; in particular a repeated correct handshake line
/// is ignored.
pub proof fn lemma_port_set_once(first: Seq<u8>, later: Seq<u8>)
    requires
        spec_parse_port(first) is Some,
    ensures
        cell_after_line(cell_after_line(None, first), later) == cell_after_line(None, first),
{
}

/// A malformed line — and any line at all, once a port is held — leaves the
/// cell exactly as it was.
pub proof fn lemma_malformed_line_ignored(cell: Option<u16>, line: Seq<u8>)
    requires
        spec_parse_port(line) is None || cell is Some,
    ensures
        cell_after_line(cell, line) == cell,
{
}

/// The decimal digits of `n`, most significant first, without a sign and
/// without padding (a single `0` for zero).
pub open spec fn decimal_digits(n: nat) -> Seq<u8>
    decreases n,
{
    if n < 10 {
        seq![(48 + n) as u8]
    } else {
        decimal_digits(n / 10).push((48 + n % 10) as u8)
    }
}

/// Decimal rendering is faithful: the digits of `n` are digits and denote `n`.
proof fn lemma_decimal_digits_denote(n: nat)
    ensures
        decimal_digits(n).len() > 0,
        all_digits(decimal_digits(n)),
        digits_value(decimal_digits(n)) == n,
    decreases n,
{
    if n < 10 {
        let s = decimal_digits(n);
        assert(s.len() == 1);
        assert(s.last() == (48 + n) as u8);
        assert(s.drop_last() =~= Seq::<u8>::empty());
        assert(digits_value(s.drop_last()) == 0);
        assert(digits_value(s) == digits_value(s.drop_last()) * 10 + (s.last() - 48));
    } else {
        lemma_decimal_digits_denote(n / 10);
        let s = decimal_digits(n / 10);
        let b = (48 + n % 10) as u8;
        lemma_digits_value_push(s, b);
        lemma_fundamental_div_mod(n as int, 10);
        assert(all_digits(s.push(b))) by {
            assert(forall|i: int|
                0 <= i < s.push(b).len() ==> s.push(b)[i] == (if i < s.len() {
                    s[i]
                } else {
                    b
                }));
        }
    }
}

/// Every well-formed handshake line is accepted: for any port `n`, the line
/// made of the prefix and the decimal digits of `n` parses to exactly `n`.
pub proof fn lemma_wellformed_line_parses(n: u16)
    ensures
        spec_parse_port(handshake_prefix() + decimal_digits(n as nat)) == Some(n),
{
    let ds = decimal_digits(n as nat);
    let line = handshake_prefix() + ds;
    lemma_decimal_digits_denote(n as nat);
    assert(line[0] == 'S' as u8);
    assert(!is_ws(line[0]));
    assert(trim_front(line) == line);
    assert(line.last() == ds.last());
    assert(is_digit(line.last()));
    assert(trim_back(line) == line);
    assert(trimmed(line) == line);
    assert(line.subrange(0, 13) =~= handshake_prefix());
    assert(line.skip(13) =~= ds);
    assert(all_digits(line.skip(13)));
    assert(digits_value(line.skip(13)) == n as int);
}

/// The whole discovery path for a well-formed handshake: an absent cell that
/// sees the line `SIDECAR_PORT=<digits of n>` ends holding exactly `n`.
pub proof fn lemma_handshake_sets_port(n: u16)
    ensures
        cell_after_line(None, handshake_prefix() + decimal_digits(n as nat)) == Some(n),
{
    lemma_wellformed_line_parses(n);
}

} // verus!
