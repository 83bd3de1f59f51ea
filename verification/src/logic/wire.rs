//! The wire form of a timestamped record: a flat JSON object with one
//! text field and an integer `timestamp`, written without spaces, such as
//! `{"email":"a@b.c","timestamp":1700000000}`. What was written is read
//! back by a reader that is proved against the writer; a record in any
//! other JSON form is read by `serde_json`.

use crate::text::push_char;
use vstd::prelude::*;
use vstd::string::StringExecFns;

verus! {

/// The lower-case hexadecimal digit of `n`, for `0 <= n < 16`.
pub open spec fn hex_digit(n: int) -> char {
    if n < 10 {
        ((48 + n) as u8) as char
    } else {
        ((87 + n) as u8) as char
    }
}

/// How one character stands inside a JSON string: the quote, the
/// backslash and the control characters are escaped, the short escapes
/// being used where JSON has one; every other character stands for itself.
pub open spec fn escaped_char(c: char) -> Seq<char> {
    if c == '"' {
        seq!['\\', '"']
    } else if c == '\\' {
        seq!['\\', '\\']
    } else if c == '\u{8}' {
        seq!['\\', 'b']
    } else if c == '\t' {
        seq!['\\', 't']
    } else if c == '\n' {
        seq!['\\', 'n']
    } else if c == '\u{c}' {
        seq!['\\', 'f']
    } else if c == '\r' {
        seq!['\\', 'r']
    } else if (c as u32) < 0x20 {
        seq!['\\', 'u', '0', '0', hex_digit((c as u32) as int / 16), hex_digit((c as u32) as int % 16)]
    } else {
        seq![c]
    }
}

/// A text as it stands between the quotes of a JSON string.
pub open spec fn escaped(s: Seq<char>) -> Seq<char>
    decreases s.len(),
{
    if s.len() == 0 {
        Seq::empty()
    } else {
        escaped_char(s[0]) + escaped(s.drop_first())
    }
}

/// Escaping goes character by character.
pub proof fn lemma_escaped_concat(a: Seq<char>, b: Seq<char>)
    ensures
        escaped(a + b) == escaped(a) + escaped(b),
    decreases a.len(),
{
    if a.len() == 0 {
        assert(a + b =~= b);
        assert(escaped(a) + escaped(b) =~= escaped(b));
    } else {
        assert((a + b).drop_first() =~= a.drop_first() + b);
        lemma_escaped_concat(a.drop_first(), b);
        assert(escaped(a + b) =~= escaped(a) + escaped(b));
    }
}

/// A text of one character is escaped as that character is.
pub proof fn lemma_escaped_one(c: char)
    ensures
        escaped(seq![c]) == escaped_char(c),
{
    let one = seq![c];
    assert(one.drop_first() =~= Seq::<char>::empty());
    assert(escaped(one.drop_first()) =~= Seq::<char>::empty());
    assert(one[0] == c);
    assert(escaped(one) =~= escaped_char(c));
}

fn hex_digit_of(n: u8) -> (c: char)
    requires
        n < 16,
    ensures
        c == hex_digit(n as int),
{
    if n < 10 {
        (48 + n) as char
    } else {
        (87 + n) as char
    }
}

/// Appends `c` to `out` as it stands inside a JSON string.
fn push_escaped(out: &mut String, c: char)
    ensures
        final(out)@ == old(out)@ + escaped_char(c),
{
    if c == '"' {
        push_char(out, '\\');
        push_char(out, '"');
    } else if c == '\\' {
        push_char(out, '\\');
        push_char(out, '\\');
    } else if c == '\u{8}' {
        push_char(out, '\\');
        push_char(out, 'b');
    } else if c == '\t' {
        push_char(out, '\\');
        push_char(out, 't');
    } else if c == '\n' {
        push_char(out, '\\');
        push_char(out, 'n');
    } else if c == '\u{c}' {
        push_char(out, '\\');
        push_char(out, 'f');
    } else if c == '\r' {
        push_char(out, '\\');
        push_char(out, 'r');
    } else if (c as u32) < 0x20 {
        let code = c as u32 as u8;
        push_char(out, '\\');
        push_char(out, 'u');
        push_char(out, '0');
        push_char(out, '0');
        push_char(out, hex_digit_of(code / 16));
        push_char(out, hex_digit_of(code % 16));
    } else {
        push_char(out, c);
    }
    assert(out@ =~= old(out)@ + escaped_char(c));
}

/// Appends `value` to `out` as it stands inside a JSON string.
fn push_escaped_text(out: &mut String, value: &str)
    ensures
        final(out)@ == old(out)@ + escaped(value@),
{
    assert(escaped(value@.take(0)) =~= Seq::<char>::empty());
    assert(out@ =~= old(out)@ + escaped(value@.take(0)));
    for c in it: value.chars()
        invariant
            it.seq() == value@,
            out@ == old(out)@ + escaped(value@.take(it.index() as int)),
    {
        proof {
            let seen = value@.take(it.index() as int);
            assert(value@.take(it.index() + 1) =~= seen + seq![c]);
            lemma_escaped_concat(seen, seq![c]);
            lemma_escaped_one(c);
        }
        let ghost before = out@;
        push_escaped(out, c);
        assert(out@ =~= old(out)@ + escaped(value@.take(it.index() + 1)));
    }
    assert(value@.take(value@.len() as int) =~= value@);
}

/// The character of the decimal digit `d`, for `0 <= d < 10`.
pub open spec fn digit_char(d: int) -> char {
    ((48 + d) as u8) as char
}

/// The decimal digits of `n`, most significant first, without leading
/// zeros.
pub open spec fn digits(n: nat) -> Seq<char>
    decreases n,
{
    if n < 10 {
        seq![digit_char(n as int)]
    } else {
        digits(n / 10).push(digit_char((n % 10) as int))
    }
}

/// An integer in decimal, with a minus sign if it is negative.
pub open spec fn decimal(n: int) -> Seq<char> {
    if n < 0 {
        seq!['-'] + digits((-n) as nat)
    } else {
        digits(n as nat)
    }
}

/// The name of the field that holds the creation time.
pub open spec fn timestamp_name() -> Seq<char> {
    seq!['t', 'i', 'm', 'e', 's', 't', 'a', 'm', 'p']
}

/// The wire form of a record whose text field `name` holds `value` and
/// which was made at `timestamp`.
pub open spec fn record_text(name: Seq<char>, value: Seq<char>, timestamp: int) -> Seq<char> {
    seq!['{', '"'] + name + seq!['"', ':', '"'] + escaped(value) + seq!['"', ',', '"']
        + timestamp_name() + seq!['"', ':'] + decimal(timestamp) + seq!['}']
}

/// Appends the decimal digits of `n` to `out`.
fn push_digits(out: &mut String, n: u64)
    ensures
        final(out)@ == old(out)@ + digits(n as nat),
{
    let mut low: Vec<char> = Vec::new();
    let mut m: u64 = n;
    assert(digits(m as nat) + low@.reverse() =~= digits(n as nat));
    while m >= 10
        invariant
            digits(n as nat) == digits(m as nat) + low@.reverse(),
        decreases m,
    {
        let d = (48 + (m % 10) as u8) as char;
        let ghost before = low@;
        low.push(d);
        proof {
            assert(low@.reverse() =~= seq![d] + before.reverse());
            assert(digits(m as nat) == digits((m / 10) as nat).push(d));
            assert(digits((m / 10) as nat).push(d) + before.reverse() =~= digits((m / 10) as nat)
                + low@.reverse());
        }
        m = m / 10;
    }
    push_char(out, (48 + m as u8) as char);
    let mut k: usize = low.len();
    assert(out@ =~= old(out)@ + digits(m as nat) + low@.reverse().take(0));
    while k > 0
        invariant
            k <= low@.len(),
            out@ == old(out)@ + digits(m as nat) + low@.reverse().take(low@.len() - k),
        decreases k,
    {
        k = k - 1;
        push_char(out, low[k]);
        proof {
            let r = low@.reverse();
            let done = low@.len() - k;
            assert(r[done - 1] == low@[k as int]);
            assert(r.take(done) =~= r.take(done - 1).push(low@[k as int]));
            assert(out@ =~= old(out)@ + digits(m as nat) + r.take(done));
        }
    }
    assert(low@.reverse().take(low@.len() as int) =~= low@.reverse());
    assert(out@ =~= old(out)@ + digits(n as nat));
}

/// Appends `n` in decimal to `out`.
fn push_decimal(out: &mut String, n: i64)
    ensures
        final(out)@ == old(out)@ + decimal(n as int),
{
    if n < 0 {
        push_char(out, '-');
        let magnitude = (-(n as i128)) as u64;
        push_digits(out, magnitude);
        assert(out@ =~= old(out)@ + decimal(n as int));
    } else {
        push_digits(out, n as u64);
    }
}

/// Writes the wire form of a record: `{"name":"value","timestamp":t}`.
pub fn write_record(name: &str, value: &str, timestamp: i64) -> (text: String)
    ensures
        text@ == record_text(name@, value@, timestamp as int),
{
    let mut out = String::new();
    push_char(&mut out, '{');
    push_char(&mut out, '"');
    out.append(name);
    push_char(&mut out, '"');
    push_char(&mut out, ':');
    push_char(&mut out, '"');
    push_escaped_text(&mut out, value);
    push_char(&mut out, '"');
    push_char(&mut out, ',');
    push_char(&mut out, '"');
    push_char(&mut out, 't');
    push_char(&mut out, 'i');
    push_char(&mut out, 'm');
    push_char(&mut out, 'e');
    push_char(&mut out, 's');
    push_char(&mut out, 't');
    push_char(&mut out, 'a');
    push_char(&mut out, 'm');
    push_char(&mut out, 'p');
    push_char(&mut out, '"');
    push_char(&mut out, ':');
    let ghost head = out@;
    assert(head =~= seq!['{', '"'] + name@ + seq!['"', ':', '"'] + escaped(value@) + seq![
        '"',
        ',',
        '"',
    ] + timestamp_name() + seq!['"', ':']);
    push_decimal(&mut out, timestamp);
    push_char(&mut out, '}');
    assert(out@ =~= record_text(name@, value@, timestamp as int));
    out
}

spec fn is_hex(c: char) -> bool {
    '0' <= c <= '9' || 'a' <= c <= 'f'
}

spec fn hex_value(c: char) -> int {
    if '0' <= c <= '9' {
        (c as u32) as int - 48
    } else {
        (c as u32) as int - 87
    }
}

/// The character that the escape in front of `s` stands for, and how many
/// characters the escape takes after its backslash.
spec fn read_escape(s: Seq<char>) -> Option<(char, nat)> {
    if s.len() == 0 {
        None
    } else if s[0] == '"' {
        Some(('"', 1nat))
    } else if s[0] == '\\' {
        Some(('\\', 1nat))
    } else if s[0] == 'b' {
        Some(('\u{8}', 1nat))
    } else if s[0] == 't' {
        Some(('\t', 1nat))
    } else if s[0] == 'n' {
        Some(('\n', 1nat))
    } else if s[0] == 'f' {
        Some(('\u{c}', 1nat))
    } else if s[0] == 'r' {
        Some(('\r', 1nat))
    } else if s[0] == 'u' && s.len() >= 5 && s[1] == '0' && s[2] == '0' && is_hex(s[3]) && is_hex(
        s[4],
    ) {
        Some((((hex_value(s[3]) * 16 + hex_value(s[4])) as u8) as char, 5nat))
    } else {
        None
    }
}

spec fn with_first(c: char, read: Option<(Seq<char>, Seq<char>)>) -> Option<(Seq<char>, Seq<char>)> {
    match read {
        Some((v, rest)) => Some((seq![c] + v, rest)),
        None => None,
    }
}

spec fn with_prefix(head: Seq<char>, read: Option<(Seq<char>, Seq<char>)>) -> Option<
    (Seq<char>, Seq<char>),
> {
    match read {
        Some((v, rest)) => Some((head + v, rest)),
        None => None,
    }
}

/// Reads the inside of a JSON string up to its closing quote: the text it
/// stands for, and what follows the quote.
spec fn read_string(s: Seq<char>) -> Option<(Seq<char>, Seq<char>)>
    decreases s.len(),
{
    if s.len() == 0 {
        None
    } else if s[0] == '"' {
        Some((Seq::empty(), s.drop_first()))
    } else if s[0] == '\\' {
        match read_escape(s.drop_first()) {
            Some((c, used)) => with_first(c, read_string(s.skip(1 + used as int))),
            None => None,
        }
    } else {
        with_first(s[0], read_string(s.drop_first()))
    }
}

spec fn is_digit(c: char) -> bool {
    '0' <= c <= '9'
}

spec fn digit_value(c: char) -> nat {
    if is_digit(c) {
        ((c as u32) as int - 48) as nat
    } else {
        0
    }
}

/// How many digits stand at the front of `s`.
spec fn digit_run(s: Seq<char>) -> nat
    decreases s.len(),
{
    if s.len() > 0 && is_digit(s[0]) {
        1 + digit_run(s.drop_first())
    } else {
        0
    }
}

/// The number that the digits `ds` write.
spec fn value_of(ds: Seq<char>) -> nat
    decreases ds.len(),
{
    if ds.len() == 0 {
        0
    } else {
        value_of(ds.drop_last()) * 10 + digit_value(ds.last())
    }
}

/// The integer at the front of `s`, if one that fits 64 bits stands
/// there, and how many characters it takes.
spec fn number_at(s: Seq<char>) -> Option<(int, nat)> {
    let negative = s.len() > 0 && s[0] == '-';
    let body = if negative {
        s.drop_first()
    } else {
        s
    };
    let run = digit_run(body);
    let magnitude = value_of(body.take(run as int));
    let n = if negative {
        -(magnitude as int)
    } else {
        magnitude as int
    };
    if run == 0 || n < i64::MIN || n > i64::MAX {
        None
    } else {
        Some((n, if negative { run + 1 } else { run }))
    }
}

spec fn starts_with(s: Seq<char>, lit: Seq<char>) -> bool {
    lit.len() <= s.len() && s.take(lit.len() as int) == lit
}

spec fn record_head(name: Seq<char>) -> Seq<char> {
    seq!['{', '"'] + name + seq!['"', ':', '"']
}

spec fn record_middle() -> Seq<char> {
    seq![',', '"'] + timestamp_name() + seq!['"', ':']
}

/// What a text reads as: the value of its text field `name` and its
/// timestamp.
spec fn parse_record(text: Seq<char>, name: Seq<char>) -> Option<(Seq<char>, int)> {
    let head = record_head(name);
    if !starts_with(text, head) {
        None
    } else {
        match read_string(text.skip(head.len() as int)) {
            None => None,
            Some((value, rest)) => {
                let middle = record_middle();
                if !starts_with(rest, middle) {
                    None
                } else {
                    match number_at(rest.skip(middle.len() as int)) {
                        None => None,
                        Some((n, used)) => if rest.skip((middle.len() + used) as int) == seq!['}'] {
                            Some((value, n))
                        } else {
                            None
                        },
                    }
                }
            },
        }
    }
}

/// Reading what one character was escaped to gives the character back.
proof fn lemma_read_one(c: char, tail: Seq<char>)
    ensures
        read_string(escaped_char(c) + tail) == with_first(c, read_string(tail)),
{
    let s = escaped_char(c) + tail;
    let code = escaped_char(c);
    if c == '"' || c == '\\' || c == '\u{8}' || c == '\t' || c == '\n' || c == '\u{c}' || c
        == '\r' {
        assert(code.len() == 2);
        assert(s[0] == '\\');
        assert(s.drop_first()[0] == code[1]);
        assert(s.skip(2) =~= tail);
    } else if (c as u32) < 0x20 {
        assert(code.len() == 6);
        assert(s[0] == '\\');
        let e = s.drop_first();
        assert(e[0] == 'u' && e[1] == '0' && e[2] == '0');
        let hi = (c as u32) as int / 16;
        let lo = (c as u32) as int % 16;
        assert(e[3] == hex_digit(hi) && e[4] == hex_digit(lo));
        lemma_hex_round_trip(hi);
        lemma_hex_round_trip(lo);
        assert(hex_value(e[3]) * 16 + hex_value(e[4]) == (c as u32) as int);
        assert((((c as u32) as int) as u8) as char == c);
        assert(s.skip(6) =~= tail);
    } else {
        assert(code.len() == 1);
        assert(s[0] == c);
        assert(s.drop_first() =~= tail);
    }
}

proof fn lemma_hex_round_trip(n: int)
    requires
        0 <= n < 16,
    ensures
        is_hex(hex_digit(n)),
        hex_value(hex_digit(n)) == n,
{
}

/// Reading an escaped text up to the quote that closes it gives the text
/// back, and what follows the quote.
proof fn lemma_read_escaped(value: Seq<char>, rest: Seq<char>)
    ensures
        read_string(escaped(value) + seq!['"'] + rest) == Some((value, rest)),
    decreases value.len(),
{
    let s = escaped(value) + seq!['"'] + rest;
    if value.len() == 0 {
        assert(s[0] == '"');
        assert(s.drop_first() =~= rest);
    } else {
        let c = value[0];
        let more = value.drop_first();
        let tail = escaped(more) + seq!['"'] + rest;
        assert(s =~= escaped_char(c) + tail);
        lemma_read_one(c, tail);
        lemma_read_escaped(more, rest);
        assert(seq![c] + more =~= value);
    }
}

proof fn lemma_digits_are_digits(n: nat)
    ensures
        digits(n).len() >= 1,
        forall|i: int| 0 <= i < digits(n).len() ==> is_digit(#[trigger] digits(n)[i]),
        value_of(digits(n)) == n,
    decreases n,
{
    if n < 10 {
        let one = digits(n);
        assert(one.drop_last() =~= Seq::<char>::empty());
        assert(value_of(one.drop_last()) == 0);
        assert(one.last() == digit_char(n as int));
        assert(digit_value(one.last()) == n);
    } else {
        lemma_digits_are_digits(n / 10);
        let front = digits(n / 10);
        let all = digits(n);
        assert(all.drop_last() =~= front);
        assert(all.last() == digit_char((n % 10) as int));
        assert(digit_value(all.last()) == n % 10);
        assert forall|i: int| 0 <= i < all.len() implies is_digit(#[trigger] all[i]) by {
            if i < front.len() {
                assert(all[i] == front[i]);
            }
        }
    }
}

/// Where `k` digits stand in front of something that is no digit, the
/// run of digits is `k` long.
proof fn lemma_digit_run(s: Seq<char>, k: nat)
    requires
        k <= s.len(),
        forall|j: int| 0 <= j < k ==> is_digit(#[trigger] s[j]),
        k < s.len() ==> !is_digit(s[k as int]),
    ensures
        digit_run(s) == k,
    decreases k,
{
    if k > 0 {
        let rest = s.drop_first();
        assert(is_digit(s[0]));
        assert forall|j: int| 0 <= j < k - 1 implies is_digit(#[trigger] rest[j]) by {
            assert(rest[j] == s[j + 1]);
        }
        if k < s.len() {
            assert(rest[k - 1] == s[k as int]);
        }
        lemma_digit_run(rest, (k - 1) as nat);
    }
}

/// Reading an integer in decimal in front of something that is no digit
/// gives the integer back.
proof fn lemma_read_decimal(n: int, rest: Seq<char>)
    requires
        i64::MIN <= n <= i64::MAX,
        rest.len() > 0 ==> !is_digit(rest[0]),
    ensures
        number_at(decimal(n) + rest) == Some((n, decimal(n).len())),
{
    let s = decimal(n) + rest;
    let m = if n < 0 {
        (-n) as nat
    } else {
        n as nat
    };
    let ds = digits(m);
    lemma_digits_are_digits(m);
    let body = if n < 0 {
        s.drop_first()
    } else {
        s
    };
    if n < 0 {
        assert(s[0] == '-');
        assert(body =~= ds + rest);
    } else {
        assert(s[0] == ds[0]);
        assert(is_digit(ds[0]));
        assert(body =~= ds + rest);
    }
    assert forall|j: int| 0 <= j < ds.len() implies is_digit(#[trigger] body[j]) by {
        assert(body[j] == ds[j]);
    }
    if ds.len() < body.len() {
        assert(body[ds.len() as int] == rest[0]);
    }
    lemma_digit_run(body, ds.len());
    assert(body.take(ds.len() as int) =~= ds);
}

/// Reading the wire form of a record gives the record back.
proof fn lemma_parse_written(name: Seq<char>, value: Seq<char>, timestamp: int)
    requires
        i64::MIN <= timestamp <= i64::MAX,
    ensures
        parse_record(record_text(name, value, timestamp), name) == Some((value, timestamp)),
{
    let text = record_text(name, value, timestamp);
    let head = record_head(name);
    let middle = record_middle();
    let number = decimal(timestamp) + seq!['}'];
    let rest = middle + number;
    assert(text =~= head + (escaped(value) + seq!['"'] + rest));
    assert(text.take(head.len() as int) =~= head);
    assert(text.skip(head.len() as int) =~= escaped(value) + seq!['"'] + rest);
    lemma_read_escaped(value, rest);
    assert(rest.take(middle.len() as int) =~= middle);
    assert(rest.skip(middle.len() as int) =~= number);
    assert(seq!['}'][0] == '}');
    lemma_read_decimal(timestamp, seq!['}']);
    assert(rest.skip((middle.len() + decimal(timestamp).len()) as int) =~= seq!['}']);
}

/// The number written by more digits is no smaller.
proof fn lemma_value_grows(s: Seq<char>, j: int, k: int)
    requires
        0 <= j <= k <= s.len(),
    ensures
        value_of(s.take(j)) <= value_of(s.take(k)),
    decreases k - j,
{
    if j < k {
        lemma_value_grows(s, j, k - 1);
        assert(s.take(k).drop_last() =~= s.take(k - 1));
        assert(value_of(s.take(k)) >= value_of(s.take(k - 1)) * 10);
    }
}

/// The characters of `s`.
fn to_chars(s: &str) -> (v: Vec<char>)
    ensures
        v@ == s@,
{
    let mut v: Vec<char> = Vec::new();
    assert(v@ =~= s@.take(0));
    for c in it: s.chars()
        invariant
            it.seq() == s@,
            v@ == s@.take(it.index() as int),
    {
        v.push(c);
        assert(v@ =~= s@.take(it.index() + 1));
    }
    assert(s@.take(s@.len() as int) =~= s@);
    v
}

fn push_all(to: &mut Vec<char>, from: &Vec<char>)
    ensures
        final(to)@ == old(to)@ + from@,
{
    let mut i: usize = 0;
    assert(to@ =~= old(to)@ + from@.take(0));
    while i < from.len()
        invariant
            i <= from@.len(),
            to@ == old(to)@ + from@.take(i as int),
        decreases from@.len() - i,
    {
        to.push(from[i]);
        i = i + 1;
        assert(to@ =~= old(to)@ + from@.take(i as int));
    }
    assert(from@.take(from@.len() as int) =~= from@);
}

/// Whether `lit` stands in `t` at position `at`.
fn matches_at(t: &Vec<char>, at: usize, lit: &Vec<char>) -> (ok: bool)
    requires
        at <= t@.len(),
    ensures
        ok == starts_with(t@.skip(at as int), lit@),
{
    if lit.len() > t.len() - at {
        return false;
    }
    let ghost s = t@.skip(at as int);
    let mut i: usize = 0;
    while i < lit.len()
        invariant
            at <= t@.len() <= usize::MAX,
            i <= lit@.len() <= t@.len() - at,
            s == t@.skip(at as int),
            forall|j: int| 0 <= j < i ==> s[j] == lit@[j],
        decreases lit@.len() - i,
    {
        if t[at + i] != lit[i] {
            assert(s.take(lit@.len() as int)[i as int] != lit@[i as int]);
            return false;
        }
        i = i + 1;
    }
    assert(s.take(lit@.len() as int) =~= lit@);
    true
}

fn hex_value_of(c: char) -> (v: Option<u8>)
    ensures
        match v {
            Some(n) => is_hex(c) && n == hex_value(c),
            None => !is_hex(c),
        },
{
    if '0' <= c && c <= '9' {
        Some((c as u32 - 48) as u8)
    } else if 'a' <= c && c <= 'f' {
        Some((c as u32 - 87) as u8)
    } else {
        None
    }
}

/// Reads the escape that stands in `t` at `at`, just after a backslash.
fn read_escape_at(t: &Vec<char>, at: usize) -> (read: Option<(char, usize)>)
    requires
        at <= t@.len(),
    ensures
        match read_escape(t@.skip(at as int)) {
            Some((c, used)) => read == Some((c, used as usize)) && at + used <= t@.len(),
            None => read is None,
        },
{
    let ghost s = t@.skip(at as int);
    if at >= t.len() {
        return None;
    }
    let e = t[at];
    assert(s[0] == e);
    if e == '"' {
        Some(('"', 1))
    } else if e == '\\' {
        Some(('\\', 1))
    } else if e == 'b' {
        Some(('\u{8}', 1))
    } else if e == 't' {
        Some(('\t', 1))
    } else if e == 'n' {
        Some(('\n', 1))
    } else if e == 'f' {
        Some(('\u{c}', 1))
    } else if e == 'r' {
        Some(('\r', 1))
    } else if e == 'u' && t.len() - at >= 5 {
        assert(s[1] == t@[at + 1] && s[2] == t@[at + 2] && s[3] == t@[at + 3] && s[4] == t@[at + 4]);
        if t[at + 1] == '0' && t[at + 2] == '0' {
            match hex_value_of(t[at + 3]) {
                Some(hi) => match hex_value_of(t[at + 4]) {
                    Some(lo) => Some(((hi * 16 + lo) as char, 5)),
                    None => None,
                },
                None => None,
            }
        } else {
            None
        }
    } else {
        None
    }
}

/// Reads the inside of the JSON string that stands in `t` at `start`.
fn read_string_at(t: &Vec<char>, start: usize) -> (read: Option<(String, usize)>)
    requires
        start <= t@.len(),
    ensures
        match read_string(t@.skip(start as int)) {
            Some((value, rest)) => read is Some && read->Some_0.0@ == value && read->Some_0.1
                <= t@.len() && t@.skip(read->Some_0.1 as int) == rest,
            None => read is None,
        },
{
    let mut out = String::new();
    let mut p: usize = start;
    proof {
        let whole = read_string(t@.skip(start as int));
        match whole {
            Some((v, rest)) => {
                assert(Seq::<char>::empty() + v =~= v);
            },
            None => {},
        }
    }
    loop
        invariant
            start <= p <= t@.len(),
            read_string(t@.skip(start as int)) == with_prefix(out@, read_string(t@.skip(p as int))),
        decreases t@.len() - p,
    {
        let ghost s = t@.skip(p as int);
        if p >= t.len() {
            return None;
        }
        let c = t[p];
        assert(s[0] == c);
        assert(s.drop_first() =~= t@.skip(p + 1));
        if c == '"' {
            assert(out@ + Seq::<char>::empty() =~= out@);
            return Some((out, p + 1));
        } else if c == '\\' {
            match read_escape_at(t, p + 1) {
                None => {
                    return None;
                },
                Some((d, used)) => {
                    proof {
                        assert(s.skip(1 + used as int) =~= t@.skip(p + 1 + used));
                        lemma_prefix_grows(out@, d, read_string(t@.skip(p + 1 + used)));
                    }
                    push_char(&mut out, d);
                    p = p + 1 + used;
                },
            }
        } else {
            proof {
                lemma_prefix_grows(out@, c, read_string(t@.skip(p + 1)));
            }
            push_char(&mut out, c);
            p = p + 1;
        }
    }
}

proof fn lemma_prefix_grows(head: Seq<char>, c: char, read: Option<(Seq<char>, Seq<char>)>)
    ensures
        with_prefix(head, with_first(c, read)) == with_prefix(head.push(c), read),
{
    match read {
        Some((v, rest)) => {
            assert(head + (seq![c] + v) =~= head.push(c) + v);
        },
        None => {},
    }
}

/// Reads the integer that stands in `t` at `start`.
fn read_number_at(t: &Vec<char>, start: usize) -> (read: Option<(i64, usize)>)
    requires
        start <= t@.len(),
    ensures
        match number_at(t@.skip(start as int)) {
            Some((n, used)) => read == Some((n as i64, (start + used) as usize)) && start + used
                <= t@.len(),
            None => read is None,
        },
{
    let ghost s = t@.skip(start as int);
    let negative = start < t.len() && t[start] == '-';
    let first: usize = if negative {
        start + 1
    } else {
        start
    };
    let ghost body = t@.skip(first as int);
    proof {
        if start < t@.len() {
            assert(s[0] == t@[start as int]);
        }
        if negative {
            assert(s.drop_first() =~= body);
        }
    }
    let mut end: usize = first;
    while end < t.len() && '0' <= t[end] && t[end] <= '9'
        invariant
            first <= end <= t@.len(),
            body == t@.skip(first as int),
            forall|j: int| 0 <= j < end - first ==> is_digit(#[trigger] body[j]),
        decreases t@.len() - end,
    {
        end = end + 1;
    }
    proof {
        if end < t@.len() {
            assert(body[end - first] == t@[end as int]);
        }
        lemma_digit_run(body, (end - first) as nat);
    }
    if end == first {
        return None;
    }
    let ghost run = end - first;
    proof {
        if !negative {
            assert(s =~= body);
        }
    }
    let mut acc: u128 = 0;
    let mut j: usize = first;
    assert(body.take(0) =~= Seq::<char>::empty());
    while j < end
        invariant
            first <= j <= end <= t@.len(),
            body == t@.skip(first as int),
            run == end - first,
            run == digit_run(body),
            s == t@.skip(start as int),
            negative == (s.len() > 0 && s[0] == '-'),
            negative ==> s.drop_first() == body,
            !negative ==> s == body,
            forall|a: int| 0 <= a < end - first ==> is_digit(#[trigger] body[a]),
            acc == value_of(body.take(j - first)),
            acc <= 9223372036854775808,
        decreases end - j,
    {
        let ghost a = j - first;
        assert(body[a] == t@[j as int]);
        assert(is_digit(body[a]));
        let d = (t[j] as u32 - 48) as u128;
        let next = acc * 10 + d;
        proof {
            assert(body.take(a + 1).drop_last() =~= body.take(a));
            assert(body.take(a + 1).last() == body[a]);
            assert(next == value_of(body.take(a + 1)));
        }
        if next > 9223372036854775808 {
            proof {
                lemma_value_grows(body, a + 1, run);
            }
            return None;
        }
        acc = next;
        j = j + 1;
    }
    assert(body.take(run) == body.take(j - first));
    if negative {
        Some(((-(acc as i128)) as i64, end))
    } else if acc > 9223372036854775807 {
        None
    } else {
        Some((acc as i64, end))
    }
}

/// Reads a record as [`parse_record`] lays down.
fn parse(text: &str, name: &str) -> (read: Option<(String, i64)>)
    ensures
        match parse_record(text@, name@) {
            Some((value, n)) => read is Some && read->Some_0.0@ == value && read->Some_0.1 == n,
            None => read is None,
        },
{
    let t = to_chars(text);
    let field = to_chars(name);
    let mut head: Vec<char> = Vec::new();
    head.push('{');
    head.push('"');
    push_all(&mut head, &field);
    head.push('"');
    head.push(':');
    head.push('"');
    assert(head@ =~= record_head(name@));
    assert(t@.skip(0) =~= t@);
    if !matches_at(&t, 0, &head) {
        return None;
    }
    let (value, after) = match read_string_at(&t, head.len()) {
        Some(found) => found,
        None => {
            return None;
        },
    };
    let mut middle: Vec<char> = Vec::new();
    middle.push(',');
    middle.push('"');
    middle.push('t');
    middle.push('i');
    middle.push('m');
    middle.push('e');
    middle.push('s');
    middle.push('t');
    middle.push('a');
    middle.push('m');
    middle.push('p');
    middle.push('"');
    middle.push(':');
    assert(middle@ =~= record_middle());
    let ghost rest = t@.skip(after as int);
    if !matches_at(&t, after, &middle) {
        return None;
    }
    assert(rest.len() == t@.len() - after);
    let total = t.len();
    assert(t@.len() == total);
    let at = after + middle.len();
    assert(rest.skip(middle@.len() as int) =~= t@.skip(at as int));
    let (n, end) = match read_number_at(&t, at) {
        Some(found) => found,
        None => {
            return None;
        },
    };
    assert(at <= end <= t@.len());
    assert(rest.skip((middle@.len() + (end - at)) as int) =~= t@.skip(end as int));
    if end < t.len() && t.len() - end == 1 && t[end] == '}' {
        assert(t@.skip(end as int) =~= seq!['}']);
        Some((value, n))
    } else {
        proof {
            if t@.skip(end as int) == seq!['}'] {
                assert(t@.skip(end as int).len() == 1);
                assert(t@.skip(end as int)[0] == '}');
            }
        }
        None
    }
}

/// Why a text could not be read as a record.
#[derive(Clone, Copy, Debug, PartialEq, Eq, Structural)]
pub enum WireError {
    /// The text is not the wire form of any record of the kind asked for.
    NotARecord,
}

/// Reads back what [`write_record`] writes: a text is read exactly if it
/// is the wire form of some value and timestamp, and then as those.
fn read_written(text: &str, name: &str) -> (read: Option<(String, i64)>)
    ensures
        match read {
            Some((value, timestamp)) => text@ == record_text(name@, value@, timestamp as int),
            None => forall|value: Seq<char>, timestamp: i64|
                text@ != #[trigger] record_text(name@, value, timestamp as int),
        },
{
    let candidate = parse(text, name);
    proof {
        assert forall|value: Seq<char>, timestamp: i64|
            text@ == #[trigger] record_text(name@, value, timestamp as int) implies parse_record(
            text@,
            name@,
        ) == Some((value, timestamp as int)) by {
            lemma_parse_written(name@, value, timestamp as int);
        }
    }
    match candidate {
        None => None,
        Some((value, timestamp)) => {
            let written = write_record(name, value.as_str(), timestamp);
            if written == text.to_owned() {
                Some((value, timestamp))
            } else {
                None
            }
        },
    }
}

/// What `serde_json` reads of `text` as a record: the text that the
/// member `name` holds and the integer that the member `stamp` holds,
/// where `text` is a JSON object that has both and they hold a string and
/// an integer of 64 bits; nothing for any other text.
pub uninterp spec fn json_fields(text: Seq<char>, name: Seq<char>, stamp: Seq<char>) -> Option<
    (Seq<char>, i64),
>;

/// `serde_json::from_str` to a `serde_json::Value`, then `Map::get` for
/// the two members and `Number::as_i64` for the integer: reads any JSON
/// form of a record, whatever its spacing, the order of its members, the
/// escapes in its strings or the members it holds besides. What is read
/// depends on the arguments alone.
#[verifier::external_body]
fn read_json_fields(text: &str, name: &str, stamp: &str) -> (read: Option<(String, i64)>)
    ensures
        match read {
            Some((value, timestamp)) => json_fields(text@, name@, stamp@) == Some(
                (value@, timestamp),
            ),
            None => json_fields(text@, name@, stamp@) is None,
        },
{
    match serde_json::from_str::<serde_json::Value>(text) {
        Ok(serde_json::Value::Object(fields)) => match (fields.get(name), fields.get(stamp)) {
            (Some(serde_json::Value::String(value)), Some(serde_json::Value::Number(n))) => {
                match n.as_i64() {
                    Some(timestamp) => Some((value.clone(), timestamp)),
                    None => None,
                }
            },
            _ => None,
        },
        _ => None,
    }
}

/// What a text reads as: the value of its text field `name` and its
/// timestamp. A text that [`write_record`] writes reads as what was
/// written; any other text reads as JSON reads it.
pub open spec fn record_read(text: Seq<char>, name: Seq<char>) -> Option<(Seq<char>, i64)> {
    if exists|value: Seq<char>, timestamp: i64|
        text == #[trigger] record_text(name, value, timestamp as int) {
        let (value, timestamp) = choose|value: Seq<char>, timestamp: i64|
            text == #[trigger] record_text(name, value, timestamp as int);
        Some((value, timestamp))
    } else {
        json_fields(text, name, timestamp_name())
    }
}

/// Reads a record: the value of its text field `name` and its timestamp.
/// What [`write_record`] wrote is read back as it was written; a text in
/// another JSON form is read as JSON; any other text is no record.
pub fn read_record(text: &str, name: &str) -> (read: Option<(String, i64)>)
    ensures
        match read {
            Some((value, timestamp)) => record_read(text@, name@) == Some((value@, timestamp)),
            None => record_read(text@, name@) is None,
        },
{
    match read_written(text, name) {
        Some((value, timestamp)) => {
            proof {
                let (other, made) = choose|other: Seq<char>, made: i64|
                    text@ == #[trigger] record_text(name@, other, made as int);
                lemma_record_round_trip(name@, value@, timestamp, other, made);
            }
            Some((value, timestamp))
        },
        None => {
            proof {
                reveal_strlit("timestamp");
            }
            assert("timestamp"@ =~= timestamp_name());
            read_json_fields(text, name, "timestamp")
        },
    }
}

/// No two records are written alike: records with the same wire form have
/// the same value and the same timestamp.
pub proof fn lemma_record_round_trip(name: Seq<char>, value: Seq<char>, timestamp: i64, other: Seq<
    char,
>, other_timestamp: i64)
    requires
        record_text(name, value, timestamp as int) == record_text(
            name,
            other,
            other_timestamp as int,
        ),
    ensures
        value == other,
        timestamp == other_timestamp,
{
    lemma_parse_written(name, value, timestamp as int);
    lemma_parse_written(name, other, other_timestamp as int);
}

/// Reading what was written gives back what was written, field for
/// field.
pub proof fn lemma_read_written(name: Seq<char>, value: Seq<char>, timestamp: i64)
    ensures
        record_read(record_text(name, value, timestamp as int), name) == Some((value, timestamp)),
{
    let text = record_text(name, value, timestamp as int);
    let (other, made) = choose|other: Seq<char>, made: i64|
        text == #[trigger] record_text(name, other, made as int);
    lemma_record_round_trip(name, value, timestamp, other, made);
}

} // verus!
