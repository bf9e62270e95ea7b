//! Parsers for the web layer: IPv4 dotted-decimal and TCP/UDP port numbers.
//!
//! Both work on the UTF-8 bytes of the input. The separator `.`, the sign `+`
//! and the digits are ASCII, and an ASCII byte never occurs inside the encoding
//! of a non-ASCII character, so splitting the bytes at `.` splits the text at
//! `.`, and a part is a number exactly when its characters are.
use vstd::prelude::*;
use vstd::utf8::encode_utf8;

verus! {

/// The byte `b'.'`.
pub const DOT: u8 = 0x2e;
/// The byte `b'+'`.
pub const PLUS: u8 = 0x2b;

/// The pieces of `b` between the separator bytes `sep`, in order, as
/// `str::split` yields them: a text without `sep` is one piece, and an empty
/// text is one empty piece.
pub open spec fn split_at_byte(b: Seq<u8>, sep: u8) -> Seq<Seq<u8>>
    decreases b.len(),
{
    if b.len() == 0 {
        seq![Seq::<u8>::empty()]
    } else {
        let prev = split_at_byte(b.drop_last(), sep);
        if b.last() == sep {
            prev.push(Seq::<u8>::empty())
        } else {
            prev.update(prev.len() - 1, prev.last().push(b.last()))
        }
    }
}

pub open spec fn is_digit(c: u8) -> bool {
    0x30 <= c <= 0x39
}

/// The value of a run of decimal digits (leading zeros allowed).
pub open spec fn digits_value(d: Seq<u8>) -> nat
    decreases d.len(),
{
    if d.len() == 0 {
        0
    } else {
        digits_value(d.drop_last()) * 10 + (d.last() - 0x30) as nat
    }
}

/// The digits of an unsigned number as `str::parse` reads them: one leading
/// `+` is dropped.
pub open spec fn unsigned_digits(b: Seq<u8>) -> Seq<u8> {
    if b.len() > 0 && b[0] == PLUS {
        b.drop_first()
    } else {
        b
    }
}

/// What `str::parse` gives for an unsigned integer type whose largest value is
/// `max`: an optional `+`, then at least one decimal digit and nothing else, and
/// a value that fits.
pub open spec fn parse_unsigned(b: Seq<u8>, max: nat) -> Option<nat> {
    let d = unsigned_digits(b);
    if d.len() > 0 && (forall|i: int| 0 <= i < d.len() ==> is_digit(#[trigger] d[i]))
        && digits_value(d) <= max {
        Some(digits_value(d))
    } else {
        None
    }
}

/// The octets of a dotted-decimal IPv4 address: exactly four parts between
/// dots, each a `u8` as `str::parse` reads it.
pub open spec fn spec_parse_ipv4(b: Seq<u8>) -> Option<Seq<u8>> {
    let parts = split_at_byte(b, DOT);
    if parts.len() == 4 && (forall|i: int|
        0 <= i < 4 ==> (#[trigger] parse_unsigned(parts[i], 255)) is Some) {
        Some(Seq::new(4, |i: int| parse_unsigned(parts[i], 255).unwrap() as u8))
    } else {
        None
    }
}

/// A port number: a `u16` as `str::parse` reads it, other than 0.
pub open spec fn spec_parse_port(b: Seq<u8>) -> Option<u16> {
    match parse_unsigned(b, 0xffff) {
        Some(v) => if v == 0 {
            None
        } else {
            Some(v as u16)
        },
        None => None,
    }
}

proof fn lemma_split_nonempty(b: Seq<u8>, sep: u8)
    ensures
        split_at_byte(b, sep).len() >= 1,
    decreases b.len(),
{
    if b.len() > 0 {
        lemma_split_nonempty(b.drop_last(), sep);
    }
}

/// Splitting one more byte: a separator opens a new empty piece, any other
/// byte extends the last piece.
proof fn lemma_split_step(b: Seq<u8>, i: int, sep: u8)
    requires
        0 <= i < b.len(),
    ensures
        split_at_byte(b.take(i + 1), sep) == (if b[i] == sep {
            split_at_byte(b.take(i), sep).push(Seq::<u8>::empty())
        } else {
            split_at_byte(b.take(i), sep).update(
                split_at_byte(b.take(i), sep).len() - 1,
                split_at_byte(b.take(i), sep).last().push(b[i]),
            )
        }),
{
    assert(b.take(i + 1).drop_last() =~= b.take(i));
}

/// The pieces of a prefix, but for its last (still open) one, are the first
/// pieces of the whole.
proof fn lemma_split_prefix(b: Seq<u8>, i: int, sep: u8)
    requires
        0 <= i <= b.len(),
    ensures
        split_at_byte(b, sep).len() >= split_at_byte(b.take(i), sep).len(),
        forall|j: int|
            0 <= j < split_at_byte(b.take(i), sep).len() - 1 ==> split_at_byte(b, sep)[j]
                == #[trigger] split_at_byte(b.take(i), sep)[j],
    decreases b.len() - i,
{
    if i < b.len() {
        lemma_split_nonempty(b.take(i), sep);
        lemma_split_step(b, i, sep);
        lemma_split_prefix(b, i + 1, sep);
        let p = split_at_byte(b.take(i), sep);
        let q = split_at_byte(b.take(i + 1), sep);
        assert forall|j: int| 0 <= j < p.len() - 1 implies split_at_byte(b, sep)[j] == #[trigger] p[j] by {
            assert(q[j] == p[j]);
        }
    } else {
        assert(b.take(i) =~= b);
    }
}

proof fn lemma_digits_value_step(d: Seq<u8>, i: int)
    requires
        0 <= i < d.len(),
    ensures
        digits_value(d.take(i + 1)) == digits_value(d.take(i)) * 10 + (d[i] - 0x30) as nat,
{
    assert(d.take(i + 1).drop_last() =~= d.take(i));
}

/// Appending digits never makes the value smaller.
proof fn lemma_digits_value_prefix(d: Seq<u8>, k: int)
    requires
        0 <= k <= d.len(),
        forall|i: int| 0 <= i < d.len() ==> is_digit(#[trigger] d[i]),
    ensures
        digits_value(d.take(k)) <= digits_value(d),
    decreases d.len(),
{
    if k < d.len() {
        assert(d.drop_last().take(k) =~= d.take(k));
        lemma_digits_value_prefix(d.drop_last(), k);
    } else {
        assert(d.take(k) =~= d);
    }
}

/// Reads `b[start..end]` as an unsigned number no larger than `max`, as
/// `str::parse` does for an integer type whose largest value is `max`.
fn parse_unsigned_range(b: &[u8], start: usize, end: usize, max: u32) -> (res: Option<u32>)
    requires
        start <= end <= b@.len(),
        max <= 0xffff,
    ensures
        match res {
            Some(v) => parse_unsigned(b@.subrange(start as int, end as int), max as nat) == Some(
                v as nat,
            ),
            None => parse_unsigned(b@.subrange(start as int, end as int), max as nat) is None,
        },
{
    let ghost part = b@.subrange(start as int, end as int);
    let ds = if start < end && b[start] == PLUS {
        start + 1
    } else {
        start
    };
    let ghost d = unsigned_digits(part);
    assert(d =~= b@.subrange(ds as int, end as int));
    if ds == end {
        return None;
    }
    let mut acc: u32 = 0;
    let mut i = ds;
    while i < end
        invariant
            start <= ds <= i <= end <= b@.len(),
            d == b@.subrange(ds as int, end as int),
            part == b@.subrange(start as int, end as int),
            d == unsigned_digits(part),
            max <= 0xffff,
            acc <= max,
            acc as nat == digits_value(d.take(i - ds)),
            forall|j: int| 0 <= j < i - ds ==> is_digit(#[trigger] d[j]),
        decreases end - i,
    {
        let c = b[i];
        if c < 0x30 || c > 0x39 {
            assert(!is_digit(d[i - ds]));
            return None;
        }
        proof {
            lemma_digits_value_step(d, i - ds);
        }
        let next = acc * 10 + (c - 0x30) as u32;
        if next > max {
            proof {
                if forall|j: int| 0 <= j < d.len() ==> is_digit(#[trigger] d[j]) {
                    lemma_digits_value_prefix(d, i - ds + 1);
                }
            }
            return None;
        }
        acc = next;
        i = i + 1;
    }
    assert(d.take(end - ds) =~= d);
    Some(acc)
}

/// Parse "192.168.1.20" into [192, 168, 1, 20]. Returns None on any malformed
/// octet, and on fewer or more than four parts.
pub fn parse_ipv4(s: &str) -> (res: Option<[u8; 4]>)
    ensures
        match res {
            Some(a) => spec_parse_ipv4(encode_utf8(s@)) == Some(a@),
            None => spec_parse_ipv4(encode_utf8(s@)) is None,
        },
{
    let b = s.as_bytes();
    let ghost bs = b@;
    let len = b.len();
    let mut octets = [0u8; 4];
    let mut count: usize = 0;
    let mut start: usize = 0;
    let mut i: usize = 0;
    proof {
        assert(bs.take(0) =~= Seq::<u8>::empty());
    }
    while i < len
        invariant
            bs == b@,
            bs == encode_utf8(s@),
            len == bs.len(),
            start <= i <= len,
            count <= 4,
            split_at_byte(bs.take(i as int), DOT).len() == count + 1,
            split_at_byte(bs.take(i as int), DOT)[count as int] == bs.subrange(
                start as int,
                i as int,
            ),
            forall|j: int|
                0 <= j < count ==> parse_unsigned(
                    #[trigger] split_at_byte(bs.take(i as int), DOT)[j],
                    255,
                ) == Some(octets[j] as nat),
        decreases len - i,
    {
        proof {
            lemma_split_step(bs, i as int, DOT);
        }
        if b[i] == DOT {
            proof {
                lemma_split_prefix(bs, i + 1, DOT);
            }
            if count == 4 {
                return None;
            }
            match parse_unsigned_range(b, start, i, 255) {
                Some(v) => {
                    octets[count] = v as u8;
                },
                None => {
                    assert(split_at_byte(bs.take(i + 1), DOT)[count as int] == bs.subrange(
                        start as int,
                        i as int,
                    ));
                    assert(parse_unsigned(split_at_byte(bs, DOT)[count as int], 255) is None);
                    return None;
                },
            }
            count = count + 1;
            start = i + 1;
            assert(bs.subrange(start as int, i + 1) =~= Seq::<u8>::empty());
        } else {
            assert(bs.subrange(start as int, i + 1) =~= bs.subrange(start as int, i as int).push(
                bs[i as int],
            ));
        }
        i = i + 1;
    }
    assert(bs.take(len as int) =~= bs);
    if count == 4 {
        return None;
    }
    match parse_unsigned_range(b, start, len, 255) {
        Some(v) => {
            octets[count] = v as u8;
        },
        None => {
            return None;
        },
    }
    count = count + 1;
    if count == 4 {
        let ghost parts = split_at_byte(bs, DOT);
        assert(forall|j: int| 0 <= j < 4 ==> parse_unsigned(#[trigger] parts[j], 255) == Some(octets[j] as nat));
        assert(octets@ =~= Seq::new(4, |j: int| parse_unsigned(parts[j], 255).unwrap() as u8));
        Some(octets)
    } else {
        None
    }
}

/// Parse a TCP/UDP port "1..=65535". Returns None on 0, on overflow and on
/// anything that is not a number.
pub fn parse_port(s: &str) -> (res: Option<u16>)
    ensures
        res == spec_parse_port(encode_utf8(s@)),
{
    let b = s.as_bytes();
    assert(b@.subrange(0, b@.len() as int) =~= b@);
    match parse_unsigned_range(b, 0, b.len(), 0xffff) {
        Some(v) => {
            if v == 0 {
                None
            } else {
                Some(v as u16)
            }
        },
        None => None,
    }
}

/// The canonical decimal text of `n`: its digits, most significant first,
/// without leading zeros.
pub open spec fn decimal(n: nat) -> Seq<u8>
    decreases n,
{
    if n < 10 {
        seq![(0x30 + n) as u8]
    } else {
        decimal(n / 10).push((0x30 + n % 10) as u8)
    }
}

/// The canonical dotted-decimal text of an IPv4 address.
pub open spec fn dotted(a: Seq<u8>) -> Seq<u8> {
    decimal(a[0] as nat) + seq![DOT] + decimal(a[1] as nat) + seq![DOT] + decimal(a[2] as nat)
        + seq![DOT] + decimal(a[3] as nat)
}

proof fn lemma_decimal(n: nat)
    ensures
        decimal(n).len() > 0,
        forall|i: int| 0 <= i < decimal(n).len() ==> is_digit(#[trigger] decimal(n)[i]),
        digits_value(decimal(n)) == n,
    decreases n,
{
    if n >= 10 {
        lemma_decimal(n / 10);
        let last = (0x30 + n % 10) as u8;
        assert(last == 0x30 + n % 10);
        assert(decimal(n) == decimal(n / 10).push(last));
        assert(decimal(n).drop_last() =~= decimal(n / 10));
        assert(decimal(n).last() == last);
        assert(digits_value(decimal(n)) == digits_value(decimal(n / 10)) * 10 + n % 10);
        assert(digits_value(decimal(n / 10)) == n / 10);
        assert((n / 10) * 10 + n % 10 == n);
    } else {
        let d = (0x30 + n) as u8;
        assert(d == 0x30 + n);
        assert(decimal(n).drop_last() =~= Seq::<u8>::empty());
        assert(decimal(n).last() == d);
        assert(digits_value(Seq::<u8>::empty()) == 0);
        assert(digits_value(decimal(n)) == digits_value(decimal(n).drop_last()) * 10 + (d - 0x30) as nat);
    }
}

/// The decimal text of a number parses back to it when it fits.
proof fn lemma_parse_decimal(n: nat, max: nat)
    ensures
        n <= max ==> parse_unsigned(decimal(n), max) == Some(n),
        n > max ==> parse_unsigned(decimal(n), max) is None,
{
    lemma_decimal(n);
    assert(unsigned_digits(decimal(n)) == decimal(n));
}

/// A text without separators is one piece.
proof fn lemma_split_single(p: Seq<u8>, sep: u8)
    requires
        forall|i: int| 0 <= i < p.len() ==> p[i] != sep,
    ensures
        split_at_byte(p, sep) == seq![p],
    decreases p.len(),
{
    if p.len() > 0 {
        lemma_split_single(p.drop_last(), sep);
        assert(p.drop_last().push(p.last()) =~= p);
        assert(p.last() != sep);
        let prev = split_at_byte(p.drop_last(), sep);
        assert(prev.update(prev.len() - 1, prev.last().push(p.last())) =~= seq![p]);
    } else {
        assert(p =~= Seq::<u8>::empty());
    }
}

/// Appending a separator and a piece without separators adds that piece.
proof fn lemma_split_append(p: Seq<u8>, q: Seq<u8>, sep: u8)
    requires
        forall|i: int| 0 <= i < q.len() ==> q[i] != sep,
    ensures
        split_at_byte(p + seq![sep] + q, sep) == split_at_byte(p, sep).push(q),
    decreases q.len(),
{
    lemma_split_nonempty(p, sep);
    let b = p + seq![sep] + q;
    if q.len() == 0 {
        assert(b.drop_last() =~= p);
        assert(b.last() == sep);
        assert(split_at_byte(b, sep) == split_at_byte(p, sep).push(Seq::<u8>::empty()));
        assert(q =~= Seq::<u8>::empty());
    } else {
        let q0 = q.drop_last();
        lemma_split_append(p, q0, sep);
        assert(b.drop_last() =~= p + seq![sep] + q0);
        assert(b.last() == q.last());
        assert(q.last() != sep);
        assert(q0.push(q.last()) =~= q);
        let prev = split_at_byte(p, sep).push(q0);
        assert(split_at_byte(b, sep) == prev.update(prev.len() - 1, prev.last().push(b.last())));
        assert(prev.update(prev.len() - 1, prev.last().push(b.last())) =~= split_at_byte(
            p,
            sep,
        ).push(q));
    }
}

proof fn lemma_decimal_has_no_dot(n: nat)
    ensures
        forall|i: int| 0 <= i < decimal(n).len() ==> decimal(n)[i] != DOT,
{
    lemma_decimal(n);
    assert forall|i: int| 0 <= i < decimal(n).len() implies decimal(n)[i] != DOT by {
        assert(is_digit(decimal(n)[i]));
    }
}

/// The canonical text of every IPv4 address parses back to that address.
pub proof fn law_ipv4_text_round_trip(a: Seq<u8>)
    requires
        a.len() == 4,
    ensures
        spec_parse_ipv4(dotted(a)) == Some(a),
{
    let d0 = decimal(a[0] as nat);
    let d1 = decimal(a[1] as nat);
    let d2 = decimal(a[2] as nat);
    let d3 = decimal(a[3] as nat);
    lemma_decimal_has_no_dot(a[0] as nat);
    lemma_decimal_has_no_dot(a[1] as nat);
    lemma_decimal_has_no_dot(a[2] as nat);
    lemma_decimal_has_no_dot(a[3] as nat);
    lemma_split_single(d0, DOT);
    lemma_split_append(d0, d1, DOT);
    lemma_split_append(d0 + seq![DOT] + d1, d2, DOT);
    lemma_split_append(d0 + seq![DOT] + d1 + seq![DOT] + d2, d3, DOT);
    let parts = split_at_byte(dotted(a), DOT);
    assert(parts =~= seq![d0, d1, d2, d3]);
    lemma_parse_decimal(a[0] as nat, 255);
    lemma_parse_decimal(a[1] as nat, 255);
    lemma_parse_decimal(a[2] as nat, 255);
    lemma_parse_decimal(a[3] as nat, 255);
    assert(forall|i: int| 0 <= i < 4 ==> (#[trigger] parse_unsigned(parts[i], 255)) is Some);
    assert(Seq::new(4, |i: int| parse_unsigned(parts[i], 255).unwrap() as u8) =~= a);
}

/// The decimal text of every port from 1 to 65535 parses back to it.
pub proof fn law_port_text_round_trip(p: u16)
    requires
        p != 0,
    ensures
        spec_parse_port(decimal(p as nat)) == Some(p),
{
    lemma_parse_decimal(p as nat, 0xffff);
}

/// Four numbers written in decimal with dots between them.
pub open spec fn dotted_numbers(n0: nat, n1: nat, n2: nat, n3: nat) -> Seq<u8> {
    decimal(n0) + seq![DOT] + decimal(n1) + seq![DOT] + decimal(n2) + seq![DOT] + decimal(n3)
}

/// Four decimal numbers with dots between them parse to those numbers as
/// octets exactly when each is at most 255; one larger number rejects the
/// whole address.
pub proof fn law_ipv4_octet_range(n0: nat, n1: nat, n2: nat, n3: nat)
    ensures
        (n0 <= 255 && n1 <= 255 && n2 <= 255 && n3 <= 255) ==> spec_parse_ipv4(
            dotted_numbers(n0, n1, n2, n3),
        ) == Some(seq![n0 as u8, n1 as u8, n2 as u8, n3 as u8]),
        !(n0 <= 255 && n1 <= 255 && n2 <= 255 && n3 <= 255) ==> spec_parse_ipv4(
            dotted_numbers(n0, n1, n2, n3),
        ) is None,
{
    let d0 = decimal(n0);
    let d1 = decimal(n1);
    let d2 = decimal(n2);
    let d3 = decimal(n3);
    lemma_decimal_has_no_dot(n0);
    lemma_decimal_has_no_dot(n1);
    lemma_decimal_has_no_dot(n2);
    lemma_decimal_has_no_dot(n3);
    lemma_split_single(d0, DOT);
    lemma_split_append(d0, d1, DOT);
    lemma_split_append(d0 + seq![DOT] + d1, d2, DOT);
    lemma_split_append(d0 + seq![DOT] + d1 + seq![DOT] + d2, d3, DOT);
    let parts = split_at_byte(dotted_numbers(n0, n1, n2, n3), DOT);
    assert(parts =~= seq![d0, d1, d2, d3]);
    lemma_parse_decimal(n0, 255);
    lemma_parse_decimal(n1, 255);
    lemma_parse_decimal(n2, 255);
    lemma_parse_decimal(n3, 255);
    if n0 <= 255 && n1 <= 255 && n2 <= 255 && n3 <= 255 {
        assert(forall|i: int| 0 <= i < 4 ==> (#[trigger] parse_unsigned(parts[i], 255)) is Some);
        assert(Seq::new(4, |i: int| parse_unsigned(parts[i], 255).unwrap() as u8) =~= seq![
            n0 as u8,
            n1 as u8,
            n2 as u8,
            n3 as u8,
        ]);
    } else if n0 > 255 {
        assert(parse_unsigned(parts[0], 255) is None);
    } else if n1 > 255 {
        assert(parse_unsigned(parts[1], 255) is None);
    } else if n2 > 255 {
        assert(parse_unsigned(parts[2], 255) is None);
    } else {
        assert(parse_unsigned(parts[3], 255) is None);
    }
}

/// A number written in decimal is a port exactly when it is from 1 to 65535.
pub proof fn law_port_range(n: nat)
    ensures
        1 <= n <= 65535 ==> spec_parse_port(decimal(n)) == Some(n as u16),
        !(1 <= n <= 65535) ==> spec_parse_port(decimal(n)) is None,
{
    lemma_parse_decimal(n, 0xffff);
}

/// Fewer or more than three dots never give an address.
pub proof fn law_ipv4_needs_four_parts(b: Seq<u8>)
    requires
        split_at_byte(b, DOT).len() != 4,
    ensures
        spec_parse_ipv4(b) is None,
{
}

/// An address text holds only digits, dots and `+` signs, and each octet is
/// the value of the digits of its part.
pub proof fn law_ipv4_accepts_only_numbers(b: Seq<u8>)
    requires
        spec_parse_ipv4(b) is Some,
    ensures
        forall|k: int| 0 <= k < b.len() ==> is_digit(#[trigger] b[k]) || b[k] == DOT || b[k] == PLUS,
        forall|i: int|
            0 <= i < 4 ==> spec_parse_ipv4(b).unwrap()[i] as nat == digits_value(
                unsigned_digits(#[trigger] split_at_byte(b, DOT)[i]),
            ),
{
    let parts = split_at_byte(b, DOT);
    assert forall|i: int| 0 <= i < 4 implies spec_parse_ipv4(b).unwrap()[i] as nat == digits_value(
        unsigned_digits(#[trigger] split_at_byte(b, DOT)[i]),
    ) by {
        assert(parse_unsigned(parts[i], 255) is Some);
    }
    assert forall|k: int| 0 <= k < b.len() implies is_digit(#[trigger] b[k]) || b[k] == DOT
        || b[k] == PLUS by {
        lemma_split_bytes(b, k);
        if b[k] != DOT {
            let (i, j) = choose|i: int, j: int|
                0 <= i < parts.len() && 0 <= j < parts[i].len() && parts[i][j] == b[k];
            assert(parse_unsigned(parts[i], 255) is Some);
            let d = unsigned_digits(parts[i]);
            if !(j == 0 && parts[i][0] == PLUS) {
                if parts[i].len() > 0 && parts[i][0] == PLUS {
                    assert(d[j - 1] == parts[i][j]);
                } else {
                    assert(d[j] == parts[i][j]);
                }
            }
        }
    }
}

/// Every byte of a text is a separator or a byte of one of its pieces.
proof fn lemma_split_bytes(b: Seq<u8>, k: int)
    requires
        0 <= k < b.len(),
    ensures
        b[k] == DOT || exists|i: int, j: int|
            0 <= i < split_at_byte(b, DOT).len() && 0 <= j < split_at_byte(b, DOT)[i].len()
                && split_at_byte(b, DOT)[i][j] == b[k],
    decreases b.len(),
{
    lemma_split_nonempty(b, DOT);
    let prev = split_at_byte(b.drop_last(), DOT);
    lemma_split_nonempty(b.drop_last(), DOT);
    if k == b.len() - 1 {
        if b.last() != DOT {
            let p = split_at_byte(b, DOT);
            let i = prev.len() - 1;
            assert(p[i] == prev.last().push(b.last()));
            assert(p[i][p[i].len() - 1] == b[k]);
        }
    } else {
        lemma_split_bytes(b.drop_last(), k);
        if b.drop_last()[k] != DOT {
            let (i, j) = choose|i: int, j: int|
                0 <= i < prev.len() && 0 <= j < prev[i].len() && prev[i][j] == b.drop_last()[k];
            let p = split_at_byte(b, DOT);
            if b.last() == DOT {
                assert(p[i] == prev[i]);
            } else if i == prev.len() - 1 {
                assert(p[i] == prev.last().push(b.last()));
                assert(p[i][j] == prev[i][j]);
            } else {
                assert(p[i] == prev[i]);
            }
        }
    }
}

} // verus!
