//! Network helpers that templates use as filters and functions: address and
//! mask arithmetic, interface naming, ranges and MAC formatting.

use vstd::prelude::*;
use crate::text::{
    chars_to_string, decimal, join, join_exec, lines, lines_exec, push_all, push_decimal, push_str,
    replace_all, replace_exec, split_char, split_char_exec, str_to_chars,
};

verus! {

/// Why a helper refused its arguments.
#[derive(Debug, Clone, PartialEq, Eq)]
pub enum FilterError {
    /// A prefix length outside 8..=32 given to a mask helper.
    UnsupportedPrefix(u8),
    /// A prefix length above 32.
    InvalidPrefix(u8),
    /// A MAC address without twelve bytes of hex digits.
    InvalidMac(String),
    /// An IPv4 address without four dotted parts.
    InvalidIp(String),
    /// A dotted part that is not an unsigned 32-bit number.
    InvalidOctet(String),
}

/// `2` to the power `e`.
pub open spec fn two_pow(e: nat) -> nat
    decreases e,
{
    if e == 0 {
        1
    } else {
        2 * two_pow((e - 1) as nat)
    }
}

/// Dotted-quad notation of a 32-bit value, most significant byte first.
pub open spec fn dotted_quad(n: nat) -> Seq<char> {
    decimal(n / 16777216 % 256) + seq!['.'] + decimal(n / 65536 % 256) + seq!['.'] + decimal(n / 256 % 256)
        + seq!['.'] + decimal(n % 256)
}

/// The network mask with `p` leading one bits.
pub open spec fn netmask_value(p: nat) -> nat {
    (two_pow(32) - two_pow((32 - p) as nat)) as nat
}

/// The wildcard (inverse) mask of a prefix of length `p`.
pub open spec fn wildcard_value(p: nat) -> nat {
    (two_pow((32 - p) as nat) - 1) as nat
}

proof fn lemma_two_pow_bounds(e: nat)
    requires
        e <= 32,
    ensures
        1 <= two_pow(e) <= two_pow(32),
        two_pow(32) == 4294967296,
    decreases e,
{
    reveal_with_fuel(two_pow, 33);
    if e > 0 {
        lemma_two_pow_bounds((e - 1) as nat);
        lemma_two_pow_mono((e - 1) as nat, 31);
    }
}

proof fn lemma_two_pow_mono(a: nat, b: nat)
    requires
        a <= b,
    ensures
        two_pow(a) <= two_pow(b),
    decreases b,
{
    if a < b {
        lemma_two_pow_mono(a, (b - 1) as nat);
    }
}

fn two_pow_exec(e: u32) -> (r: u64)
    requires
        e <= 32,
    ensures
        r == two_pow(e as nat),
{
    let mut r: u64 = 1;
    let mut i: u32 = 0;
    while i < e
        invariant
            i <= e <= 32,
            r == two_pow(i as nat),
        decreases e - i,
    {
        proof {
            lemma_two_pow_bounds((i + 1) as nat);
        }
        r = r * 2;
        i = i + 1;
    }
    r
}

fn dotted_quad_exec(n: u64) -> (s: String)
    requires
        n < 4294967296,
    ensures
        s@ == dotted_quad(n as nat),
{
    let mut v: Vec<char> = Vec::new();
    push_decimal(&mut v, n / 16777216 % 256);
    v.push('.');
    push_decimal(&mut v, n / 65536 % 256);
    v.push('.');
    push_decimal(&mut v, n / 256 % 256);
    v.push('.');
    push_decimal(&mut v, n % 256);
    assert(v@ =~= dotted_quad(n as nat));
    chars_to_string(v.as_slice())
}

/// `ip_network`: an address and a prefix length in CIDR notation.
pub fn ip_network(ip: &str, prefix: u8) -> (s: String)
    ensures
        s@ == ip@ + seq!['/'] + decimal(prefix as nat),
{
    let mut v: Vec<char> = Vec::new();
    push_str(&mut v, ip);
    v.push('/');
    push_decimal(&mut v, prefix as u64);
    assert(v@ =~= ip@ + seq!['/'] + decimal(prefix as nat));
    chars_to_string(v.as_slice())
}

/// `ip_netmask`: the dotted network mask of a prefix length from 8 to 32.
pub fn ip_netmask(prefix: u8) -> (r: Result<String, FilterError>)
    ensures
        8 <= prefix <= 32 ==> r == Ok::<String, FilterError>(r->Ok_0) && r->Ok_0@ == dotted_quad(netmask_value(prefix as nat)),
        !(8 <= prefix <= 32) ==> r == Err::<String, FilterError>(FilterError::UnsupportedPrefix(prefix)),
{
    if prefix < 8 || prefix > 32 {
        return Err(FilterError::UnsupportedPrefix(prefix));
    }
    proof {
        lemma_two_pow_bounds((32 - prefix) as nat);
    }
    let all = two_pow_exec(32);
    let host = two_pow_exec(32 - prefix as u32);
    Ok(dotted_quad_exec(all - host))
}

/// `ip_wildcard`: the dotted wildcard mask of a prefix length from 8 to 32.
pub fn ip_wildcard(prefix: u8) -> (r: Result<String, FilterError>)
    ensures
        8 <= prefix <= 32 ==> r == Ok::<String, FilterError>(r->Ok_0) && r->Ok_0@ == dotted_quad(wildcard_value(prefix as nat)),
        !(8 <= prefix <= 32) ==> r == Err::<String, FilterError>(FilterError::UnsupportedPrefix(prefix)),
{
    if prefix < 8 || prefix > 32 {
        return Err(FilterError::UnsupportedPrefix(prefix));
    }
    proof {
        lemma_two_pow_bounds((32 - prefix) as nat);
    }
    let host = two_pow_exec(32 - prefix as u32);
    Ok(dotted_quad_exec(host - 1))
}

/// The wildcard mask of a supported prefix length is the inverse of its
/// network mask: the two masks add up to all ones, and so do each of their
/// octets, the octets `ip_netmask` and `ip_wildcard` write.
pub proof fn law_wildcard_inverts_netmask(p: nat)
    requires
        8 <= p <= 32,
    ensures
        netmask_value(p) + wildcard_value(p) == 4294967295,
        netmask_value(p) / 16777216 % 256 + wildcard_value(p) / 16777216 % 256 == 255,
        netmask_value(p) / 65536 % 256 + wildcard_value(p) / 65536 % 256 == 255,
        netmask_value(p) / 256 % 256 + wildcard_value(p) / 256 % 256 == 255,
        netmask_value(p) % 256 + wildcard_value(p) % 256 == 255,
{
    lemma_two_pow_bounds((32 - p) as nat);
    let n: u32 = netmask_value(p) as u32;
    let w: u32 = wildcard_value(p) as u32;
    assert(n == netmask_value(p) && w == wildcard_value(p));
    assert(n + w == 0xffff_ffff);
    assert(n / 16777216 % 256 + w / 16777216 % 256 == 255) by (bit_vector)
        requires
            n + w == 0xffff_ffff,
    ;
    assert(n / 65536 % 256 + w / 65536 % 256 == 255) by (bit_vector)
        requires
            n + w == 0xffff_ffff,
    ;
    assert(n / 256 % 256 + w / 256 % 256 == 255) by (bit_vector)
        requires
            n + w == 0xffff_ffff,
    ;
    assert(n % 256 + w % 256 == 255) by (bit_vector)
        requires
            n + w == 0xffff_ffff,
    ;
}

/// Each line indented by `spaces` blanks; empty lines stay empty.
pub open spec fn indented_line(line: Seq<char>, spaces: nat) -> Seq<char> {
    if line.len() == 0 {
        line
    } else {
        Seq::new(spaces, |i: int| ' ') + line
    }
}

pub open spec fn indent_spec(text: Seq<char>, spaces: nat) -> Seq<char> {
    join(lines(text).map_values(|l: Seq<char>| indented_line(l, spaces)), seq!['\n'])
}

/// `indent`: every non-empty line of the text prefixed by `spaces` blanks,
/// the lines joined by newlines.
pub fn indent(text: &str, spaces: usize) -> (s: String)
    ensures
        s@ == indent_spec(text@, spaces as nat),
{
    let cs = str_to_chars(text);
    let ls = lines_exec(cs.as_slice());
    let ghost lv = ls@.map_values(|l: Vec<char>| l@);
    let mut out: Vec<Vec<char>> = Vec::new();
    let mut i: usize = 0;
    while i < ls.len()
        invariant
            i <= ls@.len(),
            lv == ls@.map_values(|l: Vec<char>| l@),
            lv == lines(text@),
            out@.len() == i,
            forall|k: int| 0 <= k < i ==> (#[trigger] out@[k])@ == indented_line(lv[k], spaces as nat),
        decreases ls.len() - i,
    {
        let line = &ls[i];
        let mut v: Vec<char> = Vec::new();
        if line.len() > 0 {
            let mut j: usize = 0;
            while j < spaces
                invariant
                    j <= spaces,
                    v@ == Seq::new(j as nat, |q: int| ' '),
                decreases spaces - j,
            {
                v.push(' ');
                j = j + 1;
                assert(v@ =~= Seq::new(j as nat, |q: int| ' '));
            }
        }
        push_all(&mut v, line.as_slice());
        proof {
            if line@.len() == 0 {
                assert(v@ =~= line@);
            }
            assert(lv[i as int] == line@);
        }
        out.push(v);
        i = i + 1;
    }
    let nl: [char; 1] = ['\n'];
    let joined = join_exec(&out, &nl);
    proof {
        assert(out@.map_values(|l: Vec<char>| l@) =~= lv.map_values(|l: Seq<char>| indented_line(l, spaces as nat)));
        assert(nl@ =~= seq!['\n']);
    }
    chars_to_string(joined.as_slice())
}

/// `s` with each listed replacement applied to the whole string, in order.
pub open spec fn replace_chain(s: Seq<char>, rules: Seq<(Seq<char>, Seq<char>)>) -> Seq<char>
    decreases rules.len(),
{
    if rules.len() == 0 {
        s
    } else {
        replace_chain(replace_all(s, rules[0].0, rules[0].1), rules.drop_first())
    }
}

fn replace_str(s: Vec<char>, from: &str, to: &str) -> (r: Vec<char>)
    requires
        from@.len() > 0,
    ensures
        r@ == replace_all(s@, from@, to@),
{
    let f = str_to_chars(from);
    let t = str_to_chars(to);
    replace_exec(s.as_slice(), f.as_slice(), t.as_slice())
}

/// `cisco_interface`: long interface names shortened to Cisco's
/// abbreviations, one replacement after the other.
pub fn cisco_interface(interface: &str) -> (s: String)
    ensures
        s@ == replace_all(replace_all(replace_all(replace_all(interface@, "GigabitEthernet"@, "Gi"@), "TenGigabitEthernet"@, "Te"@), "FastEthernet"@, "Fa"@), "Ethernet"@, "Et"@),
{
    proof {
        reveal_strlit("GigabitEthernet");
        reveal_strlit("TenGigabitEthernet");
        reveal_strlit("FastEthernet");
        reveal_strlit("Ethernet");
    }
    let v = str_to_chars(interface);
    let v = replace_str(v, "GigabitEthernet", "Gi");
    let v = replace_str(v, "TenGigabitEthernet", "Te");
    let v = replace_str(v, "FastEthernet", "Fa");
    let v = replace_str(v, "Ethernet", "Et");
    chars_to_string(v.as_slice())
}

/// `juniper_interface`: long interface names turned into Juniper's
/// prefixes, one replacement after the other.
pub fn juniper_interface(interface: &str) -> (s: String)
    ensures
        s@ == replace_all(replace_all(replace_all(interface@, "GigabitEthernet"@, "ge-"@), "TenGigabitEthernet"@, "xe-"@), "FastEthernet"@, "fe-"@),
{
    proof {
        reveal_strlit("GigabitEthernet");
        reveal_strlit("TenGigabitEthernet");
        reveal_strlit("FastEthernet");
    }
    let v = str_to_chars(interface);
    let v = replace_str(v, "GigabitEthernet", "ge-");
    let v = replace_str(v, "TenGigabitEthernet", "xe-");
    let v = replace_str(v, "FastEthernet", "fe-");
    chars_to_string(v.as_slice())
}

/// The number of bytes of the UTF-8 encoding of a character.
pub open spec fn utf8_width(c: char) -> nat {
    if (c as u32) < 0x80 {
        1
    } else if (c as u32) < 0x800 {
        2
    } else if (c as u32) < 0x10000 {
        3
    } else {
        4
    }
}

/// The number of bytes of the UTF-8 encoding of a string.
pub open spec fn utf8_len(s: Seq<char>) -> nat
    decreases s.len(),
{
    if s.len() == 0 {
        0
    } else {
        utf8_len(s.drop_last()) + utf8_width(s.last())
    }
}

pub open spec fn is_mac_separator(c: char) -> bool {
    c == ':' || c == '-' || c == '.'
}

/// The characters of a MAC address without its separators.
pub open spec fn mac_digits(s: Seq<char>) -> Seq<char>
    decreases s.len(),
{
    if s.len() == 0 {
        s
    } else if is_mac_separator(s.last()) {
        mac_digits(s.drop_last())
    } else {
        mac_digits(s.drop_last()).push(s.last())
    }
}

/// Consecutive pairs of characters; the last piece may be shorter.
pub open spec fn pairs(s: Seq<char>) -> Seq<Seq<char>>
    decreases s.len(),
{
    if s.len() == 0 {
        Seq::empty()
    } else if s.len() <= 2 {
        seq![s]
    } else {
        seq![s.take(2)] + pairs(s.skip(2))
    }
}

/// `mac_format`: the MAC address without separators, regrouped into pairs
/// joined by `separator` (`:` when none is given). The address must hold
/// twelve bytes once the separators are gone.
pub fn mac_format(mac: &str, separator: Option<&str>) -> (r: Result<String, FilterError>)
    ensures
        utf8_len(mac_digits(mac@)) == 12 ==> r is Ok && r->Ok_0@ == join(pairs(mac_digits(mac@)), match separator {
            Some(s) => s@,
            None => seq![':'],
        }),
        utf8_len(mac_digits(mac@)) != 12 ==> (r matches Err(FilterError::InvalidMac(m)) && m@ == mac@),
{
    let cs = str_to_chars(mac);
    let mut clean: Vec<char> = Vec::new();
    let mut bytes: usize = 0;
    let mut i: usize = 0;
    while i < cs.len()
        invariant
            i <= cs@.len(),
            cs@ == mac@,
            clean@ == mac_digits(cs@.take(i as int)),
            bytes == (if utf8_len(clean@) > 12 { 13 } else { utf8_len(clean@) }),
            utf8_len(clean@) >= clean@.len(),
            clean@.len() <= i,
        decreases cs.len() - i,
    {
        let c = cs[i];
        proof {
            assert(cs@.take(i + 1).drop_last() =~= cs@.take(i as int));
            assert(cs@.take(i + 1).last() == c);
        }
        if !(c == ':' || c == '-' || c == '.') {
            let w: usize = if (c as u32) < 0x80 {
                1
            } else if (c as u32) < 0x800 {
                2
            } else if (c as u32) < 0x10000 {
                3
            } else {
                4
            };
            let ghost before = clean@;
            clean.push(c);
            assert(clean@.drop_last() =~= before);
            assert(w == utf8_width(c));
            assert(utf8_len(clean@) == utf8_len(before) + utf8_width(c));
            bytes = if bytes > 12 { 13 } else if bytes + w > 12 { 13 } else { bytes + w };
        }
        i = i + 1;
    }
    assert(cs@.take(i as int) =~= cs@);
    if bytes != 12 {
        return Err(FilterError::InvalidMac(mac.to_string()));
    }
    let sep: Vec<char> = match separator {
        Some(s) => str_to_chars(s),
        None => {
            let mut d: Vec<char> = Vec::new();
            d.push(':');
            d
        },
    };
    let mut parts: Vec<Vec<char>> = Vec::new();
    let mut k: usize = 0;
    proof {
        assert(clean@.skip(0) =~= clean@);
        assert(parts@.map_values(|l: Vec<char>| l@) + pairs(clean@) =~= pairs(clean@));
    }
    while k < clean.len()
        invariant
            k <= clean@.len() <= 12,
            parts@.map_values(|l: Vec<char>| l@) + pairs(clean@.skip(k as int)) == pairs(clean@),
        decreases clean.len() - k,
    {
        let mut piece: Vec<char> = Vec::new();
        piece.push(clean[k]);
        if k + 1 < clean.len() {
            piece.push(clean[k + 1]);
        }
        let next: usize = if k + 2 <= clean.len() { k + 2 } else { clean.len() };
        let ghost rest = clean@.skip(k as int);
        let ghost before = parts@.map_values(|l: Vec<char>| l@);
        parts.push(piece);
        proof {
            if rest.len() <= 2 {
                assert(piece@ =~= rest);
                assert(clean@.skip(next as int) =~= Seq::<char>::empty());
                assert(pairs(rest) =~= seq![piece@] + pairs(clean@.skip(next as int)));
            } else {
                assert(piece@ =~= rest.take(2));
                assert(rest.skip(2) =~= clean@.skip(next as int));
                assert(pairs(rest) =~= seq![piece@] + pairs(clean@.skip(next as int)));
            }
            assert(parts@.map_values(|l: Vec<char>| l@) =~= before.push(piece@));
            assert(before.push(piece@) + pairs(clean@.skip(next as int)) =~= before + pairs(rest));
        }
        k = next;
    }
    proof {
        assert(clean@.skip(k as int) =~= Seq::<char>::empty());
        assert(parts@.map_values(|l: Vec<char>| l@) =~= pairs(clean@));
    }
    let joined = join_exec(&parts, sep.as_slice());
    Ok(chars_to_string(joined.as_slice()))
}

/// `vlan_range` and `port_range`: the numbers from `start` to `end`,
/// both included; none when `start` is above `end`.
pub fn vlan_range(start: u16, end: u16) -> (v: Vec<u16>)
    ensures
        v@.len() == (if start <= end { end - start + 1 } else { 0 }),
        forall|k: int| 0 <= k < v@.len() ==> #[trigger] v@[k] == start + k,
{
    let mut v: Vec<u16> = Vec::new();
    if start > end {
        return v;
    }
    let mut x: u16 = start;
    loop
        invariant
            start <= x <= end,
            v@.len() == x - start,
            forall|k: int| 0 <= k < v@.len() ==> #[trigger] v@[k] == start + k,
        decreases end - x,
    {
        v.push(x);
        if x == end {
            return v;
        }
        x = x + 1;
    }
}

/// `port_range`: the ports from `start` to `end`, both included.
pub fn port_range(start: u16, end: u16) -> (v: Vec<u16>)
    ensures
        v@.len() == (if start <= end { end - start + 1 } else { 0 }),
        forall|k: int| 0 <= k < v@.len() ==> #[trigger] v@[k] == start + k,
{
    vlan_range(start, end)
}

/// `interface_range`: the prefix followed by each number from `start` to
/// `end`, both included.
pub fn interface_range(prefix: &str, start: u8, end: u8) -> (v: Vec<String>)
    ensures
        v@.len() == (if start <= end { end - start + 1 } else { 0 }),
        forall|k: int| 0 <= k < v@.len() ==> (#[trigger] v@[k])@ == prefix@ + decimal((start + k) as nat),
{
    let mut v: Vec<String> = Vec::new();
    if start > end {
        return v;
    }
    let mut x: u8 = start;
    loop
        invariant
            start <= x <= end,
            v@.len() == x - start,
            forall|k: int| 0 <= k < v@.len() ==> (#[trigger] v@[k])@ == prefix@ + decimal((start + k) as nat),
        decreases end - x,
    {
        let mut cs: Vec<char> = Vec::new();
        push_str(&mut cs, prefix);
        push_decimal(&mut cs, x as u64);
        v.push(chars_to_string(cs.as_slice()));
        if x == end {
            return v;
        }
        x = x + 1;
    }
}

/// `asn_private`: the private autonomous system numbers 64512 to 65534.
pub fn asn_private() -> (v: Vec<u32>)
    ensures
        v@.len() == 1023,
        forall|k: int| 0 <= k < v@.len() ==> #[trigger] v@[k] == 64512 + k,
{
    let mut v: Vec<u32> = Vec::new();
    let mut x: u32 = 64512;
    while x <= 65534
        invariant
            64512 <= x <= 65535,
            v@.len() == x - 64512,
            forall|k: int| 0 <= k < v@.len() ==> #[trigger] v@[k] == 64512 + k,
        decreases 65535 - x,
    {
        v.push(x);
        x = x + 1;
    }
    v
}

/// `subnet_hosts`: the usable host addresses of an IPv4 prefix, the
/// network and broadcast addresses left out; none for /31 and /32. A /0
/// prefix is not taken: its host count, a 32-bit shift of one, overflows.
pub fn subnet_hosts(prefix: u8) -> (r: Result<u32, FilterError>)
    requires
        prefix != 0,
    ensures
        prefix > 32 ==> r == Err::<u32, FilterError>(FilterError::InvalidPrefix(prefix)),
        prefix <= 32 ==> r == Ok::<u32, FilterError>(r->Ok_0) && r->Ok_0 == (if 32 - prefix >= 2 { two_pow((32 - prefix) as nat) - 2 } else { 0 }),
{
    if prefix > 32 {
        return Err(FilterError::InvalidPrefix(prefix));
    }
    let host_bits = 32 - prefix as u32;
    if host_bits >= 2 {
        proof {
            lemma_two_pow_bounds(host_bits as nat);
            reveal_with_fuel(two_pow, 33);
        }
        let h = two_pow_exec(host_bits);
        Ok((h - 2) as u32)
    } else {
        Ok(0)
    }
}

/// The value of a string of decimal digits.
pub open spec fn digits_value(s: Seq<char>) -> nat
    decreases s.len(),
{
    if s.len() == 0 {
        0
    } else {
        10 * digits_value(s.drop_last()) + ((s.last() as u32) - 48) as nat
    }
}

pub open spec fn is_digit(c: char) -> bool {
    '0' <= c <= '9'
}

/// Some value when `d` is one or more ASCII digits whose value fits in 32
/// bits.
pub open spec fn parse_digits(d: Seq<char>) -> Option<u32> {
    if d.len() > 0 && (forall|i: int| 0 <= i < d.len() ==> is_digit(#[trigger] d[i])) && digits_value(d) < 4294967296 {
        Some(digits_value(d) as u32)
    } else {
        None
    }
}

/// The text without one leading `+`.
pub open spec fn without_plus(s: Seq<char>) -> Seq<char> {
    if s.len() > 0 && s[0] == '+' {
        s.drop_first()
    } else {
        s
    }
}

/// What `str::parse::<u32>` gives: an optional `+`, then one or more ASCII
/// digits whose value fits in 32 bits.
pub open spec fn parse_u32(s: Seq<char>) -> Option<u32> {
    parse_digits(without_plus(s))
}

/// Some value when `d` is one or more ASCII digits whose value fits in 64
/// bits.
pub open spec fn parse_digits64(d: Seq<char>) -> Option<u64> {
    if d.len() > 0 && (forall|i: int| 0 <= i < d.len() ==> is_digit(#[trigger] d[i])) && digits_value(d) < 18446744073709551616 {
        Some(digits_value(d) as u64)
    } else {
        None
    }
}

/// What `str::parse::<u64>` gives.
pub open spec fn parse_u64(s: Seq<char>) -> Option<u64> {
    parse_digits64(without_plus(s))
}

proof fn lemma_digits_value_mono(s: Seq<char>, i: int, j: int)
    requires
        0 <= i <= j <= s.len(),
        forall|k: int| 0 <= k < s.len() ==> is_digit(#[trigger] s[k]),
    ensures
        digits_value(s.take(i)) <= digits_value(s.take(j)),
    decreases j - i,
{
    if i < j {
        lemma_digits_value_mono(s, i, j - 1);
        assert(s.take(j).drop_last() =~= s.take(j - 1));
    }
}

/// `str::parse::<u32>` on a piece of text.
pub fn parse_u32_exec(s: &[char]) -> (r: Option<u32>)
    ensures
        r == parse_u32(s@),
{
    let mut start: usize = 0;
    if s.len() > 0 && s[0] == '+' {
        start = 1;
    }
    let ghost d = without_plus(s@);
    assert(d =~= s@.skip(start as int));
    if start >= s.len() {
        return None;
    }
    let mut value: u64 = 0;
    let mut i: usize = start;
    while i < s.len()
        invariant
            start <= i <= s@.len(),
            d == s@.skip(start as int),
            d == without_plus(s@),
            forall|k: int| start <= k < i ==> is_digit(#[trigger] s@[k]),
            value == digits_value(d.take(i - start)),
            value < 4294967296,
        decreases s.len() - i,
    {
        let c = s[i];
        if !('0' <= c && c <= '9') {
            assert(d[i - start] == c);
            assert(!is_digit(d[i - start]));
            assert(!(forall|k: int| 0 <= k < d.len() ==> is_digit(#[trigger] d[k])));
            assert(parse_u32(s@) is None);
            return None;
        }
        let digit = (c as u32 - 48) as u64;
        proof {
            assert(d.take(i - start + 1).drop_last() =~= d.take(i - start));
        }
        value = value * 10 + digit;
        if value >= 4294967296 {
            proof {
                if forall|k: int| 0 <= k < d.len() ==> is_digit(#[trigger] d[k]) {
                    lemma_digits_value_mono(d, i - start + 1, d.len() as int);
                    assert(d.take(d.len() as int) =~= d);
                    assert(digits_value(d) >= 4294967296);
                }
                assert(parse_u32(s@) is None);
            }
            return None;
        }
        i = i + 1;
    }
    proof {
        assert(d.take(d.len() as int) =~= d);
        assert forall|k: int| 0 <= k < d.len() implies is_digit(#[trigger] d[k]) by {
            assert(d[k] == s@[k + start]);
        }
    }
    Some(value as u32)
}

/// `str::parse::<u64>` on a piece of text.
pub fn parse_u64_exec(s: &[char]) -> (r: Option<u64>)
    ensures
        r == parse_u64(s@),
{
    let mut start: usize = 0;
    if s.len() > 0 && s[0] == '+' {
        start = 1;
    }
    let ghost d = without_plus(s@);
    assert(d =~= s@.skip(start as int));
    if start >= s.len() {
        return None;
    }
    let mut value: u128 = 0;
    let mut i: usize = start;
    while i < s.len()
        invariant
            start <= i <= s@.len(),
            d == s@.skip(start as int),
            d == without_plus(s@),
            forall|k: int| start <= k < i ==> is_digit(#[trigger] s@[k]),
            value == digits_value(d.take(i - start)),
            value < 18446744073709551616,
        decreases s.len() - i,
    {
        let c = s[i];
        if !('0' <= c && c <= '9') {
            assert(d[i - start] == c);
            assert(!is_digit(d[i - start]));
            assert(!(forall|k: int| 0 <= k < d.len() ==> is_digit(#[trigger] d[k])));
            assert(parse_u64(s@) is None);
            return None;
        }
        let digit = (c as u32 - 48) as u128;
        proof {
            assert(d.take(i - start + 1).drop_last() =~= d.take(i - start));
        }
        value = value * 10 + digit;
        if value >= 18446744073709551616 {
            proof {
                if forall|k: int| 0 <= k < d.len() ==> is_digit(#[trigger] d[k]) {
                    lemma_digits_value_mono(d, i - start + 1, d.len() as int);
                    assert(d.take(d.len() as int) =~= d);
                    assert(digits_value(d) >= 18446744073709551616);
                }
                assert(parse_u64(s@) is None);
            }
            return None;
        }
        i = i + 1;
    }
    proof {
        assert(d.take(d.len() as int) =~= d);
        assert forall|k: int| 0 <= k < d.len() implies is_digit(#[trigger] d[k]) by {
            assert(d[k] == s@[k + start]);
        }
    }
    Some(value as u64)
}

/// The 32-bit value of four dotted parts, each shifted into its byte and
/// merged with bitwise or.
pub open spec fn ip_value(o0: u32, o1: u32, o2: u32, o3: u32) -> u32 {
    (((o0 << 24u32) | (o1 << 16u32)) | (o2 << 8u32)) | o3
}

/// `ip_increment`: an IPv4 address moved forward by `increment`, wrapping
/// around past 255.255.255.255. Each of the four dotted parts must parse as
/// an unsigned 32-bit number.
pub open spec fn ip_increment_spec(ip: Seq<char>, increment: u32) -> Option<Seq<char>> {
    let parts = split_char(ip, '.');
    if parts.len() == 4 && parse_u32(parts[0]) is Some && parse_u32(parts[1]) is Some && parse_u32(parts[2]) is Some
        && parse_u32(parts[3]) is Some {
        let n = ip_value(parse_u32(parts[0])->0, parse_u32(parts[1])->0, parse_u32(parts[2])->0, parse_u32(parts[3])->0);
        Some(dotted_quad(((n + increment) % 4294967296) as nat))
    } else {
        None
    }
}

/// The first of the four parts that does not parse, when there are four.
pub open spec fn first_bad_part(parts: Seq<Seq<char>>) -> Seq<char> {
    if parse_u32(parts[0]) is None {
        parts[0]
    } else if parse_u32(parts[1]) is None {
        parts[1]
    } else if parse_u32(parts[2]) is None {
        parts[2]
    } else {
        parts[3]
    }
}

pub fn ip_increment(ip: &str, increment: u32) -> (r: Result<String, FilterError>)
    ensures
        ip_increment_spec(ip@, increment) is Some ==> r is Ok && r->Ok_0@ == ip_increment_spec(ip@, increment)->0,
        split_char(ip@, '.').len() != 4 ==> (r matches Err(FilterError::InvalidIp(m)) && m@ == ip@),
        split_char(ip@, '.').len() == 4 && ip_increment_spec(ip@, increment) is None ==> (r matches Err(
            FilterError::InvalidOctet(m),
        ) && m@ == first_bad_part(split_char(ip@, '.'))),
{
    let cs = str_to_chars(ip);
    let parts = split_char_exec(cs.as_slice(), '.');
    let ghost pv = parts@.map_values(|l: Vec<char>| l@);
    assert(pv == split_char(ip@, '.'));
    if parts.len() != 4 {
        return Err(FilterError::InvalidIp(ip.to_string()));
    }
    assert(pv[0] == parts@[0]@ && pv[1] == parts@[1]@ && pv[2] == parts@[2]@ && pv[3] == parts@[3]@);
    let o0 = match parse_u32_exec(parts[0].as_slice()) {
        Some(o) => o,
        None => {
            return Err(FilterError::InvalidOctet(chars_to_string(parts[0].as_slice())));
        },
    };
    let o1 = match parse_u32_exec(parts[1].as_slice()) {
        Some(o) => o,
        None => {
            return Err(FilterError::InvalidOctet(chars_to_string(parts[1].as_slice())));
        },
    };
    let o2 = match parse_u32_exec(parts[2].as_slice()) {
        Some(o) => o,
        None => {
            return Err(FilterError::InvalidOctet(chars_to_string(parts[2].as_slice())));
        },
    };
    let o3 = match parse_u32_exec(parts[3].as_slice()) {
        Some(o) => o,
        None => {
            return Err(FilterError::InvalidOctet(chars_to_string(parts[3].as_slice())));
        },
    };
    let n: u32 = (((o0 << 24u32) | (o1 << 16u32)) | (o2 << 8u32)) | o3;
    let m: u32 = n.wrapping_add(increment);
    assert(m == (n + increment) % 4294967296);
    Ok(dotted_quad_exec(m as u64))
}

impl FilterError {
    /// The message that the error is reported with.
    pub fn message(&self) -> (s: String)
        ensures
            s@ == filter_error_message(*self),
    {
        let mut v: Vec<char> = Vec::new();
        match self {
            FilterError::UnsupportedPrefix(p) => {
                push_str(&mut v, "Unsupported prefix length: ");
                push_decimal(&mut v, *p as u64);
            },
            FilterError::InvalidPrefix(p) => {
                push_str(&mut v, "Invalid prefix length: ");
                push_decimal(&mut v, *p as u64);
            },
            FilterError::InvalidMac(m) => {
                push_str(&mut v, "Invalid MAC address format: ");
                push_str(&mut v, m.as_str());
            },
            FilterError::InvalidIp(m) => {
                push_str(&mut v, "Invalid IP address format: ");
                push_str(&mut v, m.as_str());
            },
            FilterError::InvalidOctet(m) => {
                push_str(&mut v, "Invalid IP octet: ");
                push_str(&mut v, m.as_str());
            },
        }
        chars_to_string(v.as_slice())
    }
}

pub open spec fn filter_error_message(e: FilterError) -> Seq<char> {
    match e {
        FilterError::UnsupportedPrefix(p) => "Unsupported prefix length: "@ + decimal(p as nat),
        FilterError::InvalidPrefix(p) => "Invalid prefix length: "@ + decimal(p as nat),
        FilterError::InvalidMac(m) => "Invalid MAC address format: "@ + m@,
        FilterError::InvalidIp(m) => "Invalid IP address format: "@ + m@,
        FilterError::InvalidOctet(m) => "Invalid IP octet: "@ + m@,
    }
}

} // verus!
