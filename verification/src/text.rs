//! Character-level building blocks of the client wire format: decimal
//! rendering of integers, JSON string escaping, and their strict
//! (canonical-form) parsers, each proved to invert the rendering.

use vstd::prelude::*;
use vstd::string::StrSliceExecFns;

verus! {

/// Relies on std's `String::push`: appends exactly the given character.
#[verifier::external_body]
pub fn push_char(s: &mut String, c: char)
    ensures
        final(s)@ == old(s)@.push(c),
{
    s.push(c);
}

/// The characters of a string slice, in order.
pub fn str_chars(s: &str) -> (r: Vec<char>)
    ensures
        r@ == s@,
{
    let n = s.unicode_len();
    let mut r: Vec<char> = Vec::new();
    let mut i: usize = 0;
    while i < n
        invariant
            i <= n,
            n == s@.len(),
            r@ == s@.take(i as int),
        decreases n - i,
    {
        let c = s.get_char(i);
        r.push(c);
        proof {
            assert(r@ =~= s@.take(i + 1 as int));
        }
        i += 1;
    }
    proof {
        assert(s@.take(n as int) =~= s@);
    }
    r
}

/// A decimal digit character.
pub open spec fn spec_is_digit(c: char) -> bool {
    48 <= (c as u32) && (c as u32) <= 57
}

/// The character for one decimal digit value.
pub open spec fn spec_digit_char(d: nat) -> char {
    ((48 + d) as u8) as char
}

/// The value of a decimal digit character.
pub open spec fn spec_digit_val(c: char) -> nat {
    ((c as u32) - 48) as nat
}

/// A lowercase hexadecimal digit character.
pub open spec fn spec_is_lower_hex(c: char) -> bool {
    spec_is_digit(c) || (97 <= (c as u32) && (c as u32) <= 102)
}

/// The character for one hexadecimal digit value, lowercase.
pub open spec fn spec_hex_char(d: nat) -> char {
    if d < 10 {
        spec_digit_char(d)
    } else {
        ((87 + d) as u8) as char
    }
}

/// The value of a lowercase hexadecimal digit character.
pub open spec fn spec_hex_val(c: char) -> nat {
    if spec_is_digit(c) {
        spec_digit_val(c)
    } else {
        ((c as u32) - 87) as nat
    }
}

/// Hex rendering of a digit value inverts to that value.
pub proof fn lemma_hex_char_val(d: nat)
    requires
        d < 16,
    ensures
        spec_is_lower_hex(spec_hex_char(d)),
        spec_hex_val(spec_hex_char(d)) == d,
        d < 10 ==> spec_is_digit(spec_hex_char(d)),
        d >= 10 ==> !spec_is_digit(spec_hex_char(d)),
{
}

/// Decimal rendering of a natural number, most significant digit first,
/// no leading zeros (a lone zero for zero).
pub open spec fn spec_digits(n: nat) -> Seq<char>
    decreases n,
{
    if n < 10 {
        seq![spec_digit_char(n)]
    } else {
        spec_digits(n / 10) + seq![spec_digit_char(n % 10)]
    }
}

/// Decimal rendering of an integer: a minus sign, then the digits of
/// the magnitude.
pub open spec fn spec_int_chars(v: int) -> Seq<char> {
    if v < 0 {
        seq!['-'] + spec_digits((-v) as nat)
    } else {
        spec_digits(v as nat)
    }
}

/// Every character of a decimal rendering is a digit.
pub proof fn lemma_digits_are_digits(n: nat)
    ensures
        spec_digits(n).len() >= 1,
        forall|i: int| 0 <= i < spec_digits(n).len() ==> spec_is_digit(#[trigger] spec_digits(n)[i]),
    decreases n,
{
    if n < 10 {
    } else {
        lemma_digits_are_digits(n / 10);
    }
}

/// The JSON escape of one character: quote and backslash get a
/// backslash escape, control characters a lowercase `\u00..` escape,
/// everything else stands for itself.
pub open spec fn spec_escape_char(c: char) -> Seq<char> {
    if c == '"' {
        seq!['\\', '"']
    } else if c == '\\' {
        seq!['\\', '\\']
    } else if (c as u32) < 32 {
        seq!['\\', 'u', '0', '0', spec_hex_char((((c as u32) / 16) as nat)), spec_hex_char((((c as u32) % 16) as nat))]
    } else {
        seq![c]
    }
}

/// The JSON escape of a character sequence.
pub open spec fn spec_escape(s: Seq<char>) -> Seq<char>
    decreases s.len(),
{
    if s.len() == 0 {
        Seq::empty()
    } else {
        spec_escape_char(s[0]) + spec_escape(s.drop_first())
    }
}

/// Escaping distributes over appending one character at the back.
pub proof fn lemma_escape_push(s: Seq<char>, c: char)
    ensures
        spec_escape(s.push(c)) == spec_escape(s) + spec_escape_char(c),
    decreases s.len(),
{
    if s.len() == 0 {
        assert(s.push(c)[0] == c);
        assert(s.push(c).drop_first() =~= Seq::<char>::empty());
        assert(spec_escape(s.push(c)) == spec_escape_char(c) + spec_escape(
            Seq::<char>::empty(),
        ));
        assert(spec_escape(s.push(c)) =~= spec_escape(s) + spec_escape_char(c));
    } else {
        assert(s.push(c)[0] == s[0]);
        assert(s.push(c).drop_first() =~= s.drop_first().push(c));
        lemma_escape_push(s.drop_first(), c);
        assert(spec_escape(s.push(c)) == spec_escape_char(s[0]) + (spec_escape(s.drop_first())
            + spec_escape_char(c)));
        assert(spec_escape(s.push(c)) =~= spec_escape(s) + spec_escape_char(c));
    }
}

/// The character for a digit value, executable form.
pub fn digit_char(d: u8) -> (c: char)
    requires
        d < 10,
    ensures
        c == spec_digit_char(d as nat),
{
    (48 + d) as char
}

/// The lowercase character for a hexadecimal digit value.
pub fn hex_char(d: u8) -> (c: char)
    requires
        d < 16,
    ensures
        c == spec_hex_char(d as nat),
{
    if d < 10 {
        (48 + d) as char
    } else {
        (87 + d) as char
    }
}

/// Append the decimal rendering of `v` to `out`.
pub fn append_nat(out: &mut String, v: u64)
    ensures
        final(out)@ == old(out)@ + spec_digits(v as nat),
{
    if v < 10 {
        push_char(out, digit_char(v as u8));
        return ;
    }
    let mut buf: Vec<char> = Vec::new();
    let mut x: u64 = v;
    while x > 0
        invariant
            x > 0 ==> spec_digits(v as nat) == spec_digits(x as nat) + buf@.reverse(),
            x == 0 ==> spec_digits(v as nat) == buf@.reverse(),
        decreases x,
    {
        let d = (x % 10) as u8;
        let ghost old_buf = buf@;
        buf.push(digit_char(d));
        proof {
            assert(buf@.reverse() =~= seq![spec_digit_char((x % 10) as nat)] + old_buf.reverse());
            if x >= 10 {
                assert(spec_digits(x as nat) == spec_digits((x as nat) / 10) + seq![
                    spec_digit_char((x as nat) % 10),
                ]);
                assert((x as nat) / 10 == ((x / 10) as nat));
                assert(spec_digits(v as nat) =~= spec_digits((x / 10) as nat) + buf@.reverse());
            } else {
                assert(spec_digits(x as nat) == seq![spec_digit_char(x as nat)]);
                assert(spec_digits(v as nat) =~= buf@.reverse());
            }
        }
        x = x / 10;
    }
    let n = buf.len();
    let mut i: usize = 0;
    while i < n
        invariant
            i <= n,
            n == buf@.len(),
            spec_digits(v as nat) == buf@.reverse(),
            out@ == old(out)@ + buf@.reverse().take(i as int),
        decreases n - i,
    {
        let c = buf[n - 1 - i];
        push_char(out, c);
        proof {
            assert(buf@.reverse()[i as int] == buf@[n - 1 - i as int]);
            assert(out@ =~= old(out)@ + buf@.reverse().take(i + 1 as int));
        }
        i += 1;
    }
    proof {
        assert(buf@.reverse().take(n as int) =~= buf@.reverse());
    }
}

/// Append the decimal rendering of `v` to `out`, sign included.
pub fn append_int(out: &mut String, v: i64)
    requires
        v > i64::MIN,
    ensures
        final(out)@ == old(out)@ + spec_int_chars(v as int),
{
    if v < 0 {
        push_char(out, '-');
        let ghost mid = out@;
        append_nat(out, (-v) as u64);
        proof {
            assert(out@ =~= old(out)@ + spec_int_chars(v as int));
        }
    } else {
        append_nat(out, v as u64);
    }
}

/// Append the JSON escape of `s` to `out`.
pub fn append_escaped(out: &mut String, s: &str)
    ensures
        final(out)@ == old(out)@ + spec_escape(s@),
{
    let n = s.unicode_len();
    let mut i: usize = 0;
    while i < n
        invariant
            i <= n,
            n == s@.len(),
            out@ == old(out)@ + spec_escape(s@.take(i as int)),
        decreases n - i,
    {
        let c = s.get_char(i);
        let ghost pre = out@;
        if c == '"' {
            push_char(out, '\\');
            push_char(out, '"');
            proof {
                assert(out@ =~= pre + spec_escape_char(c));
            }
        } else if c == '\\' {
            push_char(out, '\\');
            push_char(out, '\\');
            proof {
                assert(out@ =~= pre + spec_escape_char(c));
            }
        } else if (c as u32) < 32 {
            push_char(out, '\\');
            push_char(out, 'u');
            push_char(out, '0');
            push_char(out, '0');
            push_char(out, hex_char((c as u32 / 16) as u8));
            push_char(out, hex_char((c as u32 % 16) as u8));
            proof {
                assert(c as u32 / 16 == c as nat / 16);
                assert(c as u32 % 16 == c as nat % 16);
                assert(out@ =~= pre + spec_escape_char(c));
            }
        } else {
            push_char(out, c);
            proof {
                assert(out@ =~= pre + spec_escape_char(c));
            }
        }
        proof {
            lemma_escape_push(s@.take(i as int), c);
            assert(s@.take(i + 1 as int) =~= s@.take(i as int).push(c));
            assert(out@ =~= old(out)@ + spec_escape(s@.take(i + 1 as int)));
        }
        i += 1;
    }
    proof {
        assert(s@.take(n as int) =~= s@);
    }
}

/// Concatenation of character sequences is associative.
pub proof fn lemma_add_assoc(x: Seq<char>, a: Seq<char>, b: Seq<char>)
    ensures
        (x + a) + b == x + (a + b),
{
    assert((x + a) + b =~= x + (a + b));
}

/// Strip an expected literal prefix, or fail.
pub open spec fn spec_expect(s: Seq<char>, p: Seq<char>) -> Option<Seq<char>> {
    if p.len() <= s.len() && s.take(p.len() as int) == p {
        Some(s.skip(p.len() as int))
    } else {
        None
    }
}

/// Stripping a literal from itself followed by anything leaves that
/// anything.
pub proof fn lemma_expect_prefix(p: Seq<char>, rest: Seq<char>)
    ensures
        spec_expect(p + rest, p) == Some(rest),
{
    assert((p + rest).take(p.len() as int) =~= p);
    assert((p + rest).skip(p.len() as int) =~= rest);
}

/// The maximal digit prefix of a character sequence.
pub open spec fn spec_take_digits(s: Seq<char>) -> Seq<char>
    decreases s.len(),
{
    if s.len() == 0 || !spec_is_digit(s[0]) {
        Seq::empty()
    } else {
        seq![s[0]] + spec_take_digits(s.drop_first())
    }
}

/// The value of a digit string, most significant digit first.
pub open spec fn spec_digits_val(d: Seq<char>) -> nat
    decreases d.len(),
{
    if d.len() == 0 {
        0
    } else {
        spec_digits_val(d.drop_last()) * 10 + spec_digit_val(d.last())
    }
}

/// Parse a decimal natural number: at least one digit, maximal run.
pub open spec fn spec_parse_nat(s: Seq<char>) -> Option<(nat, Seq<char>)> {
    let d = spec_take_digits(s);
    if d.len() == 0 {
        None
    } else {
        Some((spec_digits_val(d), s.skip(d.len() as int)))
    }
}

/// Parse a decimal integer in the canonical form produced by
/// `spec_int_chars`: an optional minus sign (never in front of zero)
/// followed by a maximal digit run.
pub open spec fn spec_parse_int(s: Seq<char>) -> Option<(int, Seq<char>)> {
    if s.len() > 0 && s[0] == '-' {
        match spec_parse_nat(s.drop_first()) {
            Some((n, rest)) => if n > 0 {
                Some((-(n as int), rest))
            } else {
                None
            },
            None => None,
        }
    } else {
        match spec_parse_nat(s) {
            Some((n, rest)) => Some((n as int, rest)),
            None => None,
        }
    }
}

/// Taking digits from a digit string followed by a non-digit recovers
/// exactly the digit string.
pub proof fn lemma_take_digits_exact(d: Seq<char>, rest: Seq<char>)
    requires
        forall|i: int| 0 <= i < d.len() ==> spec_is_digit(#[trigger] d[i]),
        rest.len() == 0 || !spec_is_digit(rest[0]),
    ensures
        spec_take_digits(d + rest) == d,
    decreases d.len(),
{
    if d.len() == 0 {
        assert(d + rest =~= rest);
        assert(spec_take_digits(d + rest) =~= d);
    } else {
        assert((d + rest)[0] == d[0]);
        assert((d + rest).drop_first() =~= d.drop_first() + rest);
        assert(forall|i: int|
            0 <= i < d.drop_first().len() ==> spec_is_digit(#[trigger] d.drop_first()[i]));
        lemma_take_digits_exact(d.drop_first(), rest);
        assert(spec_take_digits(d + rest) =~= d);
    }
}

/// The value of a rendered natural number is that number.
pub proof fn lemma_digits_val_of_digits(n: nat)
    ensures
        spec_digits_val(spec_digits(n)) == n,
    decreases n,
{
    if n < 10 {
        let d = spec_digits(n);
        assert(d.drop_last() =~= Seq::<char>::empty());
        assert(d.last() == spec_digit_char(n));
        assert(spec_digits_val(Seq::<char>::empty()) == 0);
        assert(spec_digits_val(d) == spec_digits_val(d.drop_last()) * 10 + spec_digit_val(d.last()));
        assert(spec_digit_val(spec_digit_char(n)) == n);
    } else {
        lemma_digits_val_of_digits(n / 10);
        let d = spec_digits(n);
        assert(d.len() == spec_digits(n / 10).len() + 1);
        assert(d.drop_last() =~= spec_digits(n / 10));
        assert(d.last() == spec_digit_char(n % 10));
        assert(spec_digits_val(d) == spec_digits_val(d.drop_last()) * 10 + spec_digit_val(d.last()));
        assert(spec_digit_val(spec_digit_char(n % 10)) == n % 10);
        assert(n / 10 * 10 + n % 10 == n);
    }
}

/// Parsing inverts the decimal rendering of a natural number, whatever
/// non-digit material follows it.
pub proof fn lemma_parse_nat_inverts(n: nat, rest: Seq<char>)
    requires
        rest.len() == 0 || !spec_is_digit(rest[0]),
    ensures
        spec_parse_nat(spec_digits(n) + rest) == Some((n, rest)),
{
    lemma_digits_are_digits(n);
    lemma_take_digits_exact(spec_digits(n), rest);
    lemma_digits_val_of_digits(n);
    assert((spec_digits(n) + rest).skip(spec_digits(n).len() as int) =~= rest);
}

/// Parsing inverts the decimal rendering of an integer, whatever
/// non-digit material follows it.
pub proof fn lemma_parse_int_inverts(v: int, rest: Seq<char>)
    requires
        rest.len() == 0 || !spec_is_digit(rest[0]),
    ensures
        spec_parse_int(spec_int_chars(v) + rest) == Some((v, rest)),
{
    if v < 0 {
        let m = (-v) as nat;
        let s = spec_int_chars(v) + rest;
        assert(s[0] == '-');
        assert(s.drop_first() =~= spec_digits(m) + rest);
        lemma_parse_nat_inverts(m, rest);
        lemma_digits_val_of_digits(m);
    } else {
        let s = spec_int_chars(v) + rest;
        lemma_digits_are_digits(v as nat);
        assert(s[0] == spec_digits(v as nat)[0]);
        assert(s[0] != '-');
        lemma_parse_nat_inverts(v as nat, rest);
    }
}

/// Parse the body of a JSON string up to and including its closing
/// quote, undoing the canonical escapes of `spec_escape`: backslash
/// escapes for quote and backslash, lowercase `\u00..` for control
/// characters, everything else for itself.
pub open spec fn spec_parse_jstring(s: Seq<char>) -> Option<(Seq<char>, Seq<char>)>
    decreases s.len(),
{
    if s.len() == 0 {
        None
    } else if s[0] == '"' {
        Some((Seq::empty(), s.drop_first()))
    } else if s[0] == '\\' {
        if s.len() < 2 {
            None
        } else if s[1] == '"' || s[1] == '\\' {
            spec_cons_str(seq![s[1]], spec_parse_jstring(s.skip(2)))
        } else if s[1] == 'u' {
            if s.len() < 6 {
                None
            } else if s[2] == '0' && s[3] == '0' && spec_is_lower_hex(s[4]) && spec_is_lower_hex(
                s[5],
            ) && spec_hex_val(s[4]) * 16 + spec_hex_val(s[5]) < 32 {
                spec_cons_str(
                    seq![(((spec_hex_val(s[4]) * 16 + spec_hex_val(s[5])) as u8) as char)],
                    spec_parse_jstring(s.skip(6)),
                )
            } else {
                None
            }
        } else {
            None
        }
    } else if (s[0] as u32) < 32 {
        None
    } else {
        spec_cons_str(seq![s[0]], spec_parse_jstring(s.drop_first()))
    }
}

/// Prepend already-recovered characters to a string-parse result.
pub open spec fn spec_cons_str(pre: Seq<char>, r: Option<(Seq<char>, Seq<char>)>) -> Option<
    (Seq<char>, Seq<char>),
> {
    match r {
        Some(p) => Some((pre + p.0, p.1)),
        None => None,
    }
}

/// Prepending distributes over itself.
pub proof fn lemma_cons_str_compose(a: Seq<char>, b: Seq<char>, x: Option<(Seq<char>, Seq<char>)>)
    ensures
        spec_cons_str(a, spec_cons_str(b, x)) == spec_cons_str(a + b, x),
{
    match x {
        Some(p) => {
            assert(a + (b + p.0) =~= (a + b) + p.0);
        },
        None => {},
    }
}

/// Prepending nothing changes nothing.
pub proof fn lemma_cons_str_empty(x: Option<(Seq<char>, Seq<char>)>)
    ensures
        spec_cons_str(Seq::empty(), x) == x,
{
    match x {
        Some(p) => {
            assert(Seq::<char>::empty() + p.0 =~= p.0);
        },
        None => {},
    }
}

/// String parsing inverts escaping: the escape of `s`, a closing quote,
/// and any tail parse back to exactly `s` and that tail.
pub proof fn lemma_parse_jstring_escaped(s: Seq<char>, rest: Seq<char>)
    ensures
        spec_parse_jstring(spec_escape(s) + seq!['"'] + rest) == Some((s, rest)),
    decreases s.len(),
{
    let full = spec_escape(s) + seq!['"'] + rest;
    if s.len() == 0 {
        assert(full[0] == '"');
        assert(full.drop_first() =~= rest);
    } else {
        let c = s[0];
        let tail = s.drop_first();
        let inner = spec_escape(tail) + seq!['"'] + rest;
        assert(full =~= spec_escape_char(c) + inner);
        lemma_parse_jstring_escaped(tail, rest);
        if c == '"' {
            assert(full[0] == '\\');
            assert(full[1] == '"');
            assert(full.skip(2) =~= inner);
            assert(seq![full[1]] + tail =~= s);
        } else if c == '\\' {
            assert(full[0] == '\\');
            assert(full[1] == '\\');
            assert(full.skip(2) =~= inner);
            assert(seq![full[1]] + tail =~= s);
        } else if (c as u32) < 32 {
            let hi = (((c as u32) / 16) as nat);
            let lo = (((c as u32) % 16) as nat);
            lemma_hex_char_val(hi);
            lemma_hex_char_val(lo);
            vstd::utf8::char_u32_cast(c, c as u32);
            assert(full[0] == '\\');
            assert(full[1] == 'u');
            assert(full[2] == '0');
            assert(full[3] == '0');
            assert(full[4] == spec_hex_char(hi));
            assert(full[5] == spec_hex_char(lo));
            assert(spec_hex_val(full[4]) * 16 + spec_hex_val(full[5]) == ((c as u32) as nat));
            assert((((spec_hex_val(full[4]) * 16 + spec_hex_val(full[5])) as u8) as char) == c);
            assert(full.skip(6) =~= inner);
            assert(seq![c] + tail =~= s);
        } else {
            assert(full[0] == c);
            assert(full.drop_first() =~= inner);
            assert(seq![c] + tail =~= s);
        }
    }
}

/// A decimal digit character, executable form.
pub fn is_digit(c: char) -> (b: bool)
    ensures
        b == spec_is_digit(c),
{
    let u = c as u32;
    48 <= u && u <= 57
}

/// A lowercase hexadecimal digit character, executable form.
pub fn is_lower_hex(c: char) -> (b: bool)
    ensures
        b == spec_is_lower_hex(c),
{
    let u = c as u32;
    (48 <= u && u <= 57) || (97 <= u && u <= 102)
}

/// The value of a lowercase hexadecimal digit character.
pub fn hex_val(c: char) -> (r: u8)
    requires
        spec_is_lower_hex(c),
    ensures
        r as nat == spec_hex_val(c),
        r < 16,
{
    let u = c as u32;
    if 48 <= u && u <= 57 {
        (u - 48) as u8
    } else {
        (u - 87) as u8
    }
}

/// Match an expected literal at position `i`, yielding the position
/// just past it.
pub fn expect_lit(v: &Vec<char>, i: usize, lit: &str) -> (r: Option<usize>)
    requires
        i <= v@.len(),
    ensures
        match r {
            Some(j) => i <= j <= v@.len() && spec_expect(v@.skip(i as int), lit@) == Some(
                v@.skip(j as int),
            ),
            None => spec_expect(v@.skip(i as int), lit@) is None,
        },
{
    let l = str_chars(lit);
    let m = l.len();
    let n = v.len();
    if m > n - i {
        return None;
    }
    let mut k: usize = 0;
    while k < m
        invariant
            k <= m,
            m == l@.len(),
            l@ == lit@,
            i <= v@.len(),
            n == v@.len(),
            m <= v@.len() - i,
            forall|t: int| 0 <= t < k ==> v@[i + t] == l@[t],
        decreases m - k,
    {
        proof {
            assert(i + k < n);
        }
        if v[i + k] != l[k] {
            proof {
                assert(v@.skip(i as int).take(m as int)[k as int] == v@[i + k]);
                assert(v@.skip(i as int).take(m as int) != lit@);
            }
            return None;
        }
        k += 1;
    }
    proof {
        assert(v@.skip(i as int).take(m as int) =~= lit@);
        assert(v@.skip(i as int).skip(m as int) =~= v@.skip((i + m) as int));
    }
    Some(i + m)
}

/// Parse a JSON string body starting at position `i` (just past the
/// opening quote), yielding the unescaped content and the position just
/// past the closing quote.
pub fn parse_jstring(v: &Vec<char>, i: usize) -> (r: Option<(String, usize)>)
    requires
        i <= v@.len(),
    ensures
        match r {
            Some(p) => i <= p.1 <= v@.len() && spec_parse_jstring(v@.skip(i as int)) == Some(
                (p.0@, v@.skip(p.1 as int)),
            ),
            None => spec_parse_jstring(v@.skip(i as int)) is None,
        },
{
    let mut acc = String::new();
    let mut j: usize = i;
    proof {
        lemma_cons_str_empty(spec_parse_jstring(v@.skip(i as int)));
    }
    loop
        invariant
            i <= j <= v@.len(),
            spec_parse_jstring(v@.skip(i as int)) == spec_cons_str(
                acc@,
                spec_parse_jstring(v@.skip(j as int)),
            ),
        decreases v@.len() - j,
    {
        if j == v.len() {
            return None;
        }
        let c = v[j];
        proof {
            assert(v@.skip(j as int)[0] == v@[j as int]);
        }
        if c == '"' {
            proof {
                assert(v@.skip(j as int).drop_first() =~= v@.skip(j + 1 as int));
                assert(acc@ + Seq::<char>::empty() =~= acc@);
            }
            return Some((acc, j + 1));
        } else if c == '\\' {
            if j + 1 == v.len() {
                return None;
            }
            let c2 = v[j + 1];
            proof {
                assert(v@.skip(j as int)[1] == v@[j + 1]);
            }
            if c2 == '"' || c2 == '\\' {
                proof {
                    assert(v@.skip(j as int).skip(2) =~= v@.skip(j + 2 as int));
                    lemma_cons_str_compose(
                        acc@,
                        seq![c2],
                        spec_parse_jstring(v@.skip(j + 2 as int)),
                    );
                    assert(acc@.push(c2) =~= acc@ + seq![c2]);
                }
                push_char(&mut acc, c2);
                j = j + 2;
            } else if c2 == 'u' {
                if v.len() - j < 6 {
                    return None;
                }
                let e2 = v[j + 2];
                let e3 = v[j + 3];
                let h1 = v[j + 4];
                let h2 = v[j + 5];
                proof {
                    assert(v@.skip(j as int)[2] == v@[j + 2]);
                    assert(v@.skip(j as int)[3] == v@[j + 3]);
                    assert(v@.skip(j as int)[4] == v@[j + 4]);
                    assert(v@.skip(j as int)[5] == v@[j + 5]);
                }
                if e2 == '0' && e3 == '0' && is_lower_hex(h1) && is_lower_hex(h2) {
                    let value = hex_val(h1) * 16 + hex_val(h2);
                    if value < 32 {
                        let ch = value as char;
                        proof {
                            assert(v@.skip(j as int).skip(6) =~= v@.skip(j + 6 as int));
                            lemma_cons_str_compose(
                                acc@,
                                seq![ch],
                                spec_parse_jstring(v@.skip(j + 6 as int)),
                            );
                            assert(acc@.push(ch) =~= acc@ + seq![ch]);
                        }
                        push_char(&mut acc, ch);
                        j = j + 6;
                    } else {
                        return None;
                    }
                } else {
                    return None;
                }
            } else {
                return None;
            }
        } else if (c as u32) < 32 {
            return None;
        } else {
            proof {
                assert(v@.skip(j as int).drop_first() =~= v@.skip(j + 1 as int));
                lemma_cons_str_compose(acc@, seq![c], spec_parse_jstring(v@.skip(j + 1 as int)));
                assert(acc@.push(c) =~= acc@ + seq![c]);
            }
            push_char(&mut acc, c);
            j = j + 1;
        }
    }
}

/// Outcome of parsing a decimal integer from the wire.
pub enum ParseIntOutcome {
    /// A value small enough to hand on, and the position just past it.
    Value(i64, usize),
    /// A well-formed number too large in magnitude for any wire field,
    /// and the position just past it.
    TooBig(usize),
    /// No canonical decimal integer starts here.
    NoParse,
}

/// Parse a decimal integer at position `i`. A number whose magnitude
/// exceeds `10_000_000_000` is reported `TooBig` rather than computed,
/// which is enough for every field range the wire format carries.
pub fn parse_int(v: &Vec<char>, i: usize) -> (r: ParseIntOutcome)
    requires
        i <= v@.len(),
    ensures
        match r {
            ParseIntOutcome::Value(n, j) => i <= j <= v@.len() && -10000000009 <= n as int
                <= 10000000009 && spec_parse_int(v@.skip(i as int)) == Some(
                (n as int, v@.skip(j as int)),
            ),
            ParseIntOutcome::TooBig(j) => i <= j <= v@.len() && match spec_parse_int(
                v@.skip(i as int),
            ) {
                Some(p) => (p.0 > 10000000000 || p.0 < -10000000000) && p.1 == v@.skip(j as int),
                None => false,
            },
            ParseIntOutcome::NoParse => spec_parse_int(v@.skip(i as int)) is None,
        },
{
    let len = v.len();
    let ghost s0 = v@.skip(i as int);
    let mut j: usize = i;
    let mut neg = false;
    if j < len && v[j] == '-' {
        proof {
            assert(s0[0] == v@[i as int]);
        }
        neg = true;
        j = j + 1;
    }
    let start = j;
    let ghost s1 = v@.skip(start as int);
    proof {
        if neg {
            assert(s0.drop_first() =~= s1);
        }
    }
    if j == len {
        proof {
            assert(spec_take_digits(s1) =~= Seq::<char>::empty());
        }
        return ParseIntOutcome::NoParse;
    }
    if !is_digit(v[j]) {
        proof {
            assert(s1[0] == v@[start as int]);
            assert(spec_take_digits(s1) =~= Seq::<char>::empty());
            if !neg {
                assert(s0.len() > 0 ==> s0[0] != '-');
            }
        }
        return ParseIntOutcome::NoParse;
    }
    let mut val: u64 = 0;
    let mut big = false;
    proof {
        assert(s0[0] == v@[i as int]);
        assert(s1[0] == v@[start as int]);
        assert(v@.subrange(start as int, start as int) + spec_take_digits(v@.skip(start as int))
            =~= spec_take_digits(s1));
    }
    while j < len && is_digit(v[j])
        invariant
            i <= start <= j <= len,
            len == v@.len(),
            s0 == v@.skip(i as int),
            s1 == v@.skip(start as int),
            start < len,
            spec_is_digit(v@[start as int]),
            neg ==> i < len && v@[i as int] == '-' && start == i + 1 && s0[0] == '-'
                && s0.drop_first() == s1,
            !neg ==> start == i && s1 == s0 && s0[0] != '-',
            forall|t: int| start <= t < j ==> spec_is_digit(#[trigger] v@[t]),
            spec_take_digits(s1) == v@.subrange(start as int, j as int) + spec_take_digits(
                v@.skip(j as int),
            ),
            !big ==> val as nat == spec_digits_val(v@.subrange(start as int, j as int)),
            !big ==> val <= 10000000009,
            big ==> spec_digits_val(v@.subrange(start as int, j as int)) > 10000000000,
        decreases len - j,
    {
        let c = v[j];
        let d = hex_val(c);
        proof {
            let pre = v@.subrange(start as int, j as int);
            let ext = v@.subrange(start as int, j + 1 as int);
            assert(ext =~= pre.push(c));
            assert(ext.drop_last() =~= pre);
            assert(ext.last() == c);
            assert(spec_digits_val(ext) == spec_digits_val(pre) * 10 + spec_digit_val(c));
            let sj = v@.skip(j as int);
            assert(sj[0] == c);
            assert(sj.drop_first() =~= v@.skip(j + 1 as int));
            assert(spec_take_digits(sj) == seq![c] + spec_take_digits(v@.skip(j + 1 as int)));
            assert(pre + spec_take_digits(sj) =~= ext + spec_take_digits(v@.skip(j + 1 as int)));
        }
        if big {
        } else if val > 1000000000 {
            big = true;
        } else {
            val = val * 10 + (d as u64);
        }
        j = j + 1;
    }
    proof {
        assert(spec_take_digits(v@.skip(j as int)) =~= Seq::<char>::empty());
        assert(spec_take_digits(s1) =~= v@.subrange(start as int, j as int));
        assert(spec_take_digits(s1).len() > 0);
        assert(s1.skip((j - start) as int) =~= v@.skip(j as int));
    }
    if big {
        ParseIntOutcome::TooBig(j)
    } else if neg {
        if val == 0 {
            ParseIntOutcome::NoParse
        } else {
            ParseIntOutcome::Value(-(val as i64), j)
        }
    } else {
        ParseIntOutcome::Value(val as i64, j)
    }
}

} // verus!
