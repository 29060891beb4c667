use vstd::prelude::*;

verus! {

/// The character of the decimal digit `d`.
pub open spec fn digit_char(d: int) -> char {
    (d + 48) as char
}

/// The decimal digits of `n`, most significant first, without leading zeros.
pub open spec fn decimal_digits(n: nat) -> Seq<char>
    decreases n,
{
    if n < 10 {
        seq![digit_char(n as int)]
    } else {
        decimal_digits(n / 10).push(digit_char((n % 10) as int))
    }
}

/// The decimal text of `n`, with a leading `-` when it is negative.
pub open spec fn decimal_text(n: int) -> Seq<char> {
    if n < 0 {
        seq!['-'] + decimal_digits((-n) as nat)
    } else {
        decimal_digits(n as nat)
    }
}

/// Appends `c` to `s` by `String::push`, whose contract here is believed,
/// not proved: the characters of `s` afterwards are those before, then `c`.
#[verifier::external_body]
pub(crate) fn push_char(s: &mut String, c: char)
    ensures
        final(s)@ == old(s)@.push(c),
{
    s.push(c);
}

fn digit(d: u32) -> (c: char)
    requires
        d < 10,
    ensures
        c == digit_char(d as int),
{
    let b: u8 = d as u8;
    (b + 48u8) as char
}

fn push_decimal_digits(s: &mut String, n: u32)
    ensures
        final(s)@ == old(s)@ + decimal_digits(n as nat),
    decreases n,
{
    if n >= 10 {
        push_decimal_digits(s, n / 10);
    }
    push_char(s, digit(n % 10));
}

/// Appends the decimal text of `n` to `s`.
pub fn push_decimal(s: &mut String, n: i32)
    ensures
        final(s)@ == old(s)@ + decimal_text(n as int),
{
    if n < 0 {
        push_char(s, '-');
        let wide: i64 = n as i64;
        let magnitude: u32 = (-wide) as u32;
        push_decimal_digits(s, magnitude);
    } else {
        push_decimal_digits(s, n as u32);
    }
}

/// The decimal text of `n`, as `i32::to_string` writes it.
pub fn decimal_string(n: i32) -> (s: String)
    ensures
        s@ == decimal_text(n as int),
{
    let mut s = String::new();
    push_decimal(&mut s, n);
    s
}

/// Says whether `s` reads `name`.
pub fn text_is(s: &String, name: &str) -> (b: bool)
    ensures
        b == (s@ == name@),
{
    let other = String::from_str(name);
    *s == other
}

/// `c` is an ASCII decimal digit.
pub open spec fn is_digit(c: char) -> bool {
    '0' <= c <= '9'
}

/// The number that the decimal digits `ds` spell.
pub open spec fn digits_value(ds: Seq<char>) -> nat
    decreases ds.len(),
{
    if ds.len() == 0 {
        0
    } else {
        digits_value(ds.drop_last()) * 10 + (ds.last() as nat - 48) as nat
    }
}

/// `ds` is made of decimal digits only.
pub open spec fn all_digits(ds: Seq<char>) -> bool {
    forall|i: int| 0 <= i < ds.len() ==> is_digit(#[trigger] ds[i])
}

/// `s` without its leading sign, if it has one.
pub open spec fn unsigned_part(s: Seq<char>) -> Seq<char> {
    if s.len() > 0 && (s[0] == '-' || s[0] == '+') {
        s.drop_first()
    } else {
        s
    }
}

/// The `i32` that `s` reads as, the way `str::parse::<i32>` reads it: an
/// optional sign, then one or more decimal digits and nothing else, with a
/// value in range; `None` otherwise.
pub open spec fn spec_parse_i32(s: Seq<char>) -> Option<i32> {
    let ds = unsigned_part(s);
    let v: int = if s.len() > 0 && s[0] == '-' {
        -(digits_value(ds) as int)
    } else {
        digits_value(ds) as int
    };
    if ds.len() == 0 || !all_digits(ds) {
        None
    } else if i32::MIN <= v <= i32::MAX {
        Some(v as i32)
    } else {
        None
    }
}

/// A prefix of digits never spells more than the whole.
pub proof fn lemma_digits_value_prefix(ds: Seq<char>, k: int)
    requires
        0 <= k <= ds.len(),
        all_digits(ds),
    ensures
        digits_value(ds.take(k)) <= digits_value(ds),
    decreases ds.len(),
{
    if k < ds.len() {
        assert(ds.drop_last().take(k) =~= ds.take(k));
        lemma_digits_value_prefix(ds.drop_last(), k);
    } else {
        assert(ds.take(k) =~= ds);
    }
}

/// Reads `s` as an `i32` the way `str::parse::<i32>` does.
pub fn parse_i32(s: &str) -> (r: Option<i32>)
    ensures
        r == spec_parse_i32(s@),
{
    let len = s.unicode_len();
    let mut start: usize = 0;
    let mut negative = false;
    if len > 0 {
        let c = s.get_char(0);
        if c == '-' {
            negative = true;
            start = 1;
        } else if c == '+' {
            start = 1;
        }
    }
    let ghost ds = s@.subrange(start as int, len as int);
    proof {
        if start == 1 {
            assert(ds =~= s@.drop_first());
        } else {
            assert(ds =~= s@);
        }
        assert(ds == unsigned_part(s@));
        assert(negative == (s@.len() > 0 && s@[0] == '-'));
    }
    if start == len {
        return None;
    }
    let mut value: i64 = 0;
    let mut i: usize = start;
    while i < len
        invariant
            start <= i <= len,
            len == s@.len(),
            ds == s@.subrange(start as int, len as int),
            ds == unsigned_part(s@),
            negative == (s@.len() > 0 && s@[0] == '-'),
            0 <= value <= 2147483648,
            value == digits_value(ds.take(i - start)),
            forall|j: int| 0 <= j < i - start ==> is_digit(#[trigger] ds[j]),
        decreases len - i,
    {
        let c = s.get_char(i);
        assert(ds[i - start] == c);
        if !('0' <= c && c <= '9') {
            assert(!is_digit(ds[i - start]));
            assert(!all_digits(ds));
            return None;
        }
        let d: i64 = (c as u32 - 48) as i64;
        proof {
            assert(ds.take(i - start + 1).drop_last() =~= ds.take(i - start));
        }
        let next: i64 = value * 10 + d;
        proof {
            let t = ds.take(i - start + 1);
            assert(t.last() == c);
            assert(digits_value(t) == next);
        }
        if next > 2147483648 {
            proof {
                if all_digits(ds) {
                    lemma_digits_value_prefix(ds, i - start + 1);
                    assert(digits_value(ds) > 2147483648);
                }
            }
            return None;
        }
        value = next;
        i = i + 1;
    }
    proof {
        assert(ds.take(len - start) =~= ds);
    }
    if negative {
        Some((-value) as i32)
    } else if value > 2147483647 {
        None
    } else {
        Some(value as i32)
    }
}

/// The decimal digits of `n` are digits, at least one, and spell `n`.
pub proof fn lemma_decimal_digits_spell(n: nat)
    ensures
        decimal_digits(n).len() >= 1,
        all_digits(decimal_digits(n)),
        digits_value(decimal_digits(n)) == n,
        is_digit(decimal_digits(n)[0]),
    decreases n,
{
    let d = (n % 10) as int;
    assert(digit_char(d) as nat == d + 48);
    let ds = decimal_digits(n);
    assert(ds.last() == digit_char(d));
    if n < 10 {
        assert(ds.drop_last() =~= Seq::<char>::empty());
        assert(digits_value(ds) == digits_value(ds.drop_last()) * 10 + (ds.last() as nat - 48) as nat);
    } else {
        lemma_decimal_digits_spell(n / 10);
        assert(ds.drop_last() =~= decimal_digits(n / 10));
        assert(ds[0] == decimal_digits(n / 10)[0]);
        assert(digits_value(ds) == digits_value(ds.drop_last()) * 10 + (ds.last() as nat - 48) as nat);
        assert(n == (n / 10) * 10 + n % 10);
    }
}

/// Reading back the decimal text of `n` gives `n`: what `decimal_string`
/// writes, `parse_i32` reads.
pub proof fn lemma_parse_decimal_roundtrip(n: i32)
    ensures
        spec_parse_i32(decimal_text(n as int)) == Some(n),
{
    if n < 0 {
        let m = (-(n as int)) as nat;
        lemma_decimal_digits_spell(m);
        let t = decimal_text(n as int);
        assert(t.drop_first() =~= decimal_digits(m));
        assert(unsigned_part(t) == decimal_digits(m));
    } else {
        lemma_decimal_digits_spell(n as nat);
        let t = decimal_text(n as int);
        assert(unsigned_part(t) == t);
    }
}

/// What follows the first `:` of `s`, if it has one.
pub open spec fn text_after_colon(s: Seq<char>) -> Option<Seq<char>>
    decreases s.len(),
{
    if s.len() == 0 {
        None
    } else if s[0] == ':' {
        Some(s.drop_first())
    } else {
        text_after_colon(s.drop_first())
    }
}

/// What precedes the first `:` of `s`, or all of `s` when it has none.
pub open spec fn text_before_colon(s: Seq<char>) -> Seq<char>
    decreases s.len(),
{
    if s.len() == 0 || s[0] == ':' {
        Seq::empty()
    } else {
        seq![s[0]] + text_before_colon(s.drop_first())
    }
}

/// The second of the `:`-separated fields of `s`, if it has one.
pub open spec fn second_field(s: Seq<char>) -> Option<Seq<char>> {
    match text_after_colon(s) {
        Some(rest) => Some(text_before_colon(rest)),
        None => None,
    }
}

/// Where the first `:` of `s` stands, or its length when it has none; what
/// precedes that place and what follows it.
fn find_colon(s: &str) -> (i: usize)
    ensures
        i <= s@.len(),
        text_before_colon(s@) == s@.subrange(0, i as int),
        i == s@.len() ==> text_after_colon(s@) is None,
        i < s@.len() ==> text_after_colon(s@) == Some(s@.skip(i + 1)),
{
    let len = s.unicode_len();
    let mut i: usize = 0;
    assert(s@.skip(0) =~= s@);
    while i < len
        invariant
            i <= len,
            len == s@.len(),
            text_after_colon(s@) == text_after_colon(s@.skip(i as int)),
            text_before_colon(s@) == s@.subrange(0, i as int) + text_before_colon(s@.skip(i as int)),
        ensures
            i <= len,
            text_after_colon(s@) == text_after_colon(s@.skip(i as int)),
            text_before_colon(s@) == s@.subrange(0, i as int) + text_before_colon(s@.skip(i as int)),
            i == len || s@[i as int] == ':',
        decreases len - i,
    {
        if s.get_char(i) == ':' {
            break;
        }
        assert(s@.skip(i as int).drop_first() =~= s@.skip(i + 1));
        assert(s@.subrange(0, i + 1) =~= s@.subrange(0, i as int) + seq![s@[i as int]]);
        i = i + 1;
    }
    assert(text_before_colon(s@.skip(i as int)) =~= Seq::<char>::empty());
    assert(s@.subrange(0, i as int) + Seq::<char>::empty() =~= s@.subrange(0, i as int));
    if i < len {
        assert(s@.skip(i as int).drop_first() =~= s@.skip(i + 1));
    }
    i
}

/// The UDP address that a server argument names: the argument itself when
/// it is an address (it holds a `:`), else that port on the host of the
/// gRPC address `grpc_ip_port`.
pub open spec fn udp_address_text(grpc_ip_port: Seq<char>, arg: Seq<char>) -> Seq<char> {
    if text_after_colon(arg) is Some {
        arg
    } else {
        text_before_colon(grpc_ip_port) + ":"@ + arg
    }
}

/// The UDP address that the server argument `arg` names, with the host of
/// `grpc_ip_port` where `arg` is a bare port.
pub fn udp_address(grpc_ip_port: &str, arg: &str) -> (addr: String)
    ensures
        addr@ == udp_address_text(grpc_ip_port@, arg@),
{
    let arg_colon = find_colon(arg);
    if arg_colon < arg.unicode_len() {
        return String::from_str(arg);
    }
    let host_end = find_colon(grpc_ip_port);
    let host = grpc_ip_port.substring_char(0, host_end);
    let mut addr = String::from_str(host);
    addr.append(":");
    addr.append(arg);
    addr
}

/// The port that `ip_port` names: its second `:`-separated field read as
/// an `i32`; `None` where it has no such field or the field is no number.
pub fn parse_server_port(ip_port: &str) -> (port: Option<i32>)
    ensures
        port == (match second_field(ip_port@) {
            Some(f) => spec_parse_i32(f),
            None => None,
        }),
{
    let len = ip_port.unicode_len();
    let mut i: usize = 0;
    assert(ip_port@.skip(0) =~= ip_port@);
    while i < len
        invariant
            i <= len,
            len == ip_port@.len(),
            text_after_colon(ip_port@) == text_after_colon(ip_port@.skip(i as int)),
        ensures
            i <= len,
            text_after_colon(ip_port@) == text_after_colon(ip_port@.skip(i as int)),
            i == len || ip_port@[i as int] == ':',
        decreases len - i,
    {
        if ip_port.get_char(i) == ':' {
            break;
        }
        assert(ip_port@.skip(i as int).drop_first() =~= ip_port@.skip(i + 1));
        i = i + 1;
    }
    if i == len {
        assert(ip_port@.skip(i as int).len() == 0);
        return None;
    }
    let start = i + 1;
    assert(ip_port@.skip(i as int).drop_first() =~= ip_port@.skip(start as int));
    let ghost rest = ip_port@.skip(start as int);
    let mut j: usize = start;
    while j < len
        invariant
            start <= j <= len,
            len == ip_port@.len(),
            rest == ip_port@.skip(start as int),
            text_before_colon(rest) == ip_port@.subrange(start as int, j as int)
                + text_before_colon(ip_port@.skip(j as int)),
        ensures
            start <= j <= len,
            text_before_colon(rest) == ip_port@.subrange(start as int, j as int)
                + text_before_colon(ip_port@.skip(j as int)),
            j == len || ip_port@[j as int] == ':',
        decreases len - j,
    {
        if ip_port.get_char(j) == ':' {
            break;
        }
        assert(ip_port@.skip(j as int).drop_first() =~= ip_port@.skip(j + 1));
        assert(ip_port@.subrange(start as int, j + 1) =~= ip_port@.subrange(start as int, j as int)
            + seq![ip_port@[j as int]]);
        j = j + 1;
    }
    assert(text_before_colon(ip_port@.skip(j as int)) =~= Seq::<char>::empty());
    assert(text_before_colon(rest) =~= ip_port@.subrange(start as int, j as int));
    let field = ip_port.substring_char(start, j);
    parse_i32(field)
}

} // verus!
