//! Numbers and addresses as text.
use vstd::prelude::*;
use super::addr::{octets_of, to_ipv4_address, EthernetAddress};
use super::cidr::{Ipv4Addr, Ipv4Cidr};

verus! {

/// The character of a digit below sixteen: `0` to `9`, then `a` to `f`.
pub open spec fn digit_char(d: int) -> char {
    if d == 0 {
        '0'
    } else if d == 1 {
        '1'
    } else if d == 2 {
        '2'
    } else if d == 3 {
        '3'
    } else if d == 4 {
        '4'
    } else if d == 5 {
        '5'
    } else if d == 6 {
        '6'
    } else if d == 7 {
        '7'
    } else if d == 8 {
        '8'
    } else if d == 9 {
        '9'
    } else if d == 10 {
        'a'
    } else if d == 11 {
        'b'
    } else if d == 12 {
        'c'
    } else if d == 13 {
        'd'
    } else if d == 14 {
        'e'
    } else {
        'f'
    }
}

/// A number in decimal digits, without leading zeros.
pub open spec fn decimal(n: nat) -> Seq<char>
    decreases n,
{
    if n < 10 {
        seq![digit_char(n as int)]
    } else {
        decimal(n / 10).push(digit_char((n % 10) as int))
    }
}

/// A number below a thousand in three decimal digits.
pub open spec fn decimal3(n: nat) -> Seq<char> {
    seq![digit_char((n / 100) as int), digit_char((n / 10 % 10) as int), digit_char((n % 10) as int)]
}

/// An octet in two hexadecimal digits.
pub open spec fn hex2(b: u8) -> Seq<char> {
    seq![digit_char((b / 16) as int), digit_char((b % 16) as int)]
}

/// An address in dotted decimal form.
pub open spec fn ipv4_text(addr: Ipv4Addr) -> Seq<char> {
    decimal(octets_of(addr)[0] as nat) + seq!['.'] + decimal(octets_of(addr)[1] as nat) + seq!['.']
        + decimal(octets_of(addr)[2] as nat) + seq!['.'] + decimal(octets_of(addr)[3] as nat)
}

/// A hardware address as six octets in hexadecimal, with hyphens between them.
pub open spec fn mac_text(mac: Seq<u8>) -> Seq<char> {
    hex2(mac[0]) + seq!['-'] + hex2(mac[1]) + seq!['-'] + hex2(mac[2]) + seq!['-'] + hex2(mac[3])
        + seq!['-'] + hex2(mac[4]) + seq!['-'] + hex2(mac[5])
}

/// A span of milliseconds as seconds with three decimals and the unit, as in `1.050s`.
pub open spec fn span_text(millis: u64) -> Seq<char> {
    decimal((millis / 1000) as nat) + seq!['.'] + decimal3((millis % 1000) as nat) + seq!['s']
}

/// The text of a digit below sixteen.
fn digit_str(d: u8) -> (r: &'static str)
    requires
        d < 16,
    ensures
        r@ == seq![digit_char(d as int)],
{
    proof {
        reveal_strlit("0");
        reveal_strlit("1");
        reveal_strlit("2");
        reveal_strlit("3");
        reveal_strlit("4");
        reveal_strlit("5");
        reveal_strlit("6");
        reveal_strlit("7");
        reveal_strlit("8");
        reveal_strlit("9");
        reveal_strlit("a");
        reveal_strlit("b");
        reveal_strlit("c");
        reveal_strlit("d");
        reveal_strlit("e");
        reveal_strlit("f");
    }
    let r = if d == 0 {
        "0"
    } else if d == 1 {
        "1"
    } else if d == 2 {
        "2"
    } else if d == 3 {
        "3"
    } else if d == 4 {
        "4"
    } else if d == 5 {
        "5"
    } else if d == 6 {
        "6"
    } else if d == 7 {
        "7"
    } else if d == 8 {
        "8"
    } else if d == 9 {
        "9"
    } else if d == 10 {
        "a"
    } else if d == 11 {
        "b"
    } else if d == 12 {
        "c"
    } else if d == 13 {
        "d"
    } else if d == 14 {
        "e"
    } else {
        "f"
    };
    assert(r@ =~= seq![digit_char(d as int)]);
    r
}

/// Appends a number in decimal digits.
pub fn push_decimal(s: &mut String, n: u64)
    ensures
        final(s)@ == old(s)@ + decimal(n as nat),
    decreases n,
{
    if n >= 10 {
        push_decimal(s, n / 10);
    }
    let ghost before = s@;
    s.append(digit_str((n % 10) as u8));
    proof {
        if n >= 10 {
            assert(s@ =~= old(s)@ + decimal((n / 10) as nat).push(digit_char((n % 10) as int)));
        } else {
            assert(s@ =~= old(s)@ + seq![digit_char(n as int)]);
        }
    }
}

/// Appends a character given as a text of one character.
fn push_mark(s: &mut String, mark: &'static str, Ghost(c): Ghost<char>)
    requires
        mark@.len() == 1,
        mark@[0] == c,
    ensures
        final(s)@ == old(s)@ + seq![c],
{
    assert(mark@ =~= seq![c]);
    s.append(mark);
}

/// Appends an address in dotted decimal form.
pub fn push_ipv4(s: &mut String, addr: Ipv4Addr)
    ensures
        final(s)@ == old(s)@ + ipv4_text(addr),
{
    let o = to_ipv4_address(addr);
    proof {
        reveal_strlit(".");
    }
    push_decimal(s, o[0] as u64);
    push_mark(s, ".", Ghost('.'));
    push_decimal(s, o[1] as u64);
    push_mark(s, ".", Ghost('.'));
    push_decimal(s, o[2] as u64);
    push_mark(s, ".", Ghost('.'));
    push_decimal(s, o[3] as u64);
    assert(s@ =~= old(s)@ + ipv4_text(addr));
}

/// Appends an octet in two hexadecimal digits.
fn push_hex2(s: &mut String, b: u8)
    ensures
        final(s)@ == old(s)@ + hex2(b),
{
    s.append(digit_str(b / 16));
    s.append(digit_str(b % 16));
    assert(s@ =~= old(s)@ + hex2(b));
}

/// Appends a hardware address.
pub fn push_mac(s: &mut String, mac: &EthernetAddress)
    ensures
        final(s)@ == old(s)@ + mac_text(mac@),
{
    proof {
        reveal_strlit("-");
    }
    push_hex2(s, mac.0[0]);
    push_mark(s, "-", Ghost('-'));
    push_hex2(s, mac.0[1]);
    push_mark(s, "-", Ghost('-'));
    push_hex2(s, mac.0[2]);
    push_mark(s, "-", Ghost('-'));
    push_hex2(s, mac.0[3]);
    push_mark(s, "-", Ghost('-'));
    push_hex2(s, mac.0[4]);
    push_mark(s, "-", Ghost('-'));
    push_hex2(s, mac.0[5]);
    assert(s@ =~= old(s)@ + mac_text(mac@));
}

/// Appends a span of milliseconds.
pub fn push_span(s: &mut String, millis: u64)
    ensures
        final(s)@ == old(s)@ + span_text(millis),
{
    proof {
        reveal_strlit(".");
        reveal_strlit("s");
    }
    let frac = millis % 1000;
    push_decimal(s, millis / 1000);
    push_mark(s, ".", Ghost('.'));
    s.append(digit_str((frac / 100) as u8));
    s.append(digit_str((frac / 10 % 10) as u8));
    s.append(digit_str((frac % 10) as u8));
    push_mark(s, "s", Ghost('s'));
    assert(s@ =~= old(s)@ + span_text(millis));
}

/// A value that has a text of one line.
pub trait Stringable {
    /// The text of the value.
    spec fn text(&self) -> Seq<char>;

    /// Writes the value out.
    fn to_string(&self) -> (s: String)
        ensures
            s@ == self.text(),
    ;
}

/// A collection that has a text of several lines.
pub trait StringableVec {
    /// The lines of the text.
    spec fn lines(&self) -> Seq<Seq<char>>;

    /// Writes the collection out, line by line.
    fn to_string_vec(&self) -> (v: Vec<String>)
        ensures
            v@.len() == self.lines().len(),
            forall|i: int| 0 <= i < v@.len() ==> (#[trigger] v@[i])@ == self.lines()[i],
    ;
}

impl Stringable for Ipv4Addr {
    open spec fn text(&self) -> Seq<char> {
        ipv4_text(*self)
    }

    fn to_string(&self) -> (s: String) {
        let mut s = String::new();
        push_ipv4(&mut s, *self);
        assert(s@ =~= ipv4_text(*self));
        s
    }
}

impl Stringable for EthernetAddress {
    open spec fn text(&self) -> Seq<char> {
        mac_text(self@)
    }

    fn to_string(&self) -> (s: String) {
        let mut s = String::new();
        push_mac(&mut s, self);
        assert(s@ =~= mac_text(self@));
        s
    }
}

impl Stringable for Ipv4Cidr {
    /// The cursor, a slash, and the prefix length.
    open spec fn text(&self) -> Seq<char> {
        ipv4_text(self.cursor()) + seq!['/'] + decimal(self.prefix() as nat)
    }

    fn to_string(&self) -> (s: String) {
        proof {
            reveal_strlit("/");
        }
        let mut s = String::new();
        push_ipv4(&mut s, self.addr());
        push_mark(&mut s, "/", Ghost('/'));
        push_decimal(&mut s, self.netmask() as u64);
        assert(s@ =~= self.text());
        s
    }
}

/// A line of the form `head (inner)`.
pub open spec fn paren_line(head: Seq<char>, inner: Seq<char>) -> Seq<char> {
    head + " ("@ + inner + ")"@
}

/// Writes a line of the form `head (inner)`, given its two parts.
pub fn make_paren_line(head: String, inner: &str) -> (s: String)
    ensures
        s@ == paren_line(head@, inner@),
{
    let mut s = head;
    s.append(" (");
    s.append(inner);
    s.append(")");
    s
}

} // verus!
