//! IPv4 addresses as the configuration document writes them.

use vstd::prelude::*;
use vstd::string::*;

use crate::duration;
use crate::text;

verus! {

/// An IPv4 address, by its four octets.
#[derive(Debug, Clone, Copy, PartialEq, Eq, Hash, Structural)]
pub struct Ipv4Addr {
    pub a: u8,
    pub b: u8,
    pub c: u8,
    pub d: u8,
}

/// An address in dotted-decimal notation: four octets without leading zeros, a
/// full stop between each two.
pub open spec fn dotted(address: Ipv4Addr) -> Seq<char> {
    text::decimal(address.a as nat) + stopped(
        text::decimal(address.b as nat) + stopped(
            text::decimal(address.c as nat) + stopped(text::decimal(address.d as nat)),
        ),
    )
}

/// A full stop and then `rest`.
pub open spec fn stopped(rest: Seq<char>) -> Seq<char> {
    "."@ + rest
}

/// Whether `text` is an address in dotted-decimal notation.
pub open spec fn is_dotted(text: Seq<char>) -> bool {
    exists|address: Ipv4Addr| text == #[trigger] dotted(address)
}

/// One octet at the start of `text`, and what follows it.
spec fn octet_read(text: Seq<char>) -> Option<(u8, Seq<char>)> {
    let digits = text.subrange(0, duration::leading_digits(text) as int);
    let value = duration::digits_value(digits);
    if value <= 255 && digits == text::decimal(value) {
        Some((value as u8, text.subrange(duration::leading_digits(text) as int, text.len() as int)))
    } else {
        None
    }
}

proof fn leading_digits_fit(text: Seq<char>)
    ensures
        duration::leading_digits(text) <= text.len(),
    decreases text.len(),
{
    if text.len() > 0 && duration::is_digit(text[0]) {
        leading_digits_fit(text.subrange(1, text.len() as int));
    }
}

/// What `octet_read` hands back is what the text was put together from.
proof fn an_octet_read_was_written(text: Seq<char>)
    ensures
        octet_read(text) matches Some((value, rest)) ==> text == text::decimal(value as nat) + rest,
{
    leading_digits_fit(text);
    let cut = duration::leading_digits(text) as int;
    assert(text =~= text.subrange(0, cut) + text.subrange(cut, text.len() as int));
}

/// An octet with something other than a digit behind it is read back.
proof fn a_written_octet_is_read(value: u8, rest: Seq<char>)
    requires
        rest.len() == 0 || !duration::is_digit(rest[0]),
    ensures
        octet_read(text::decimal(value as nat) + rest) == Some((value, rest)),
{
    let written = text::decimal(value as nat);
    duration::decimal_spells_its_number(value as nat);
    duration::digits_before_something_else(written, rest);
    let whole = written + rest;
    assert(whole.subrange(0, written.len() as int) =~= written);
    assert(whole.subrange(written.len() as int, whole.len() as int) =~= rest);
}

/// An address has one dotted-decimal form and no two addresses share one.
pub proof fn dotted_forms_are_distinct(one: Ipv4Addr, other: Ipv4Addr)
    requires
        dotted(one) == dotted(other),
    ensures
        one == other,
{
    octets_of_a_dotted_form(one);
    octets_of_a_dotted_form(other);
    reveal_strlit(".");
    assert forall|left: Seq<char>, right: Seq<char>| #[trigger] stopped(left) == #[trigger] stopped(
        right,
    ) implies left == right by {
        assert(stopped(left).subrange(1, stopped(left).len() as int) =~= left);
        assert(stopped(right).subrange(1, stopped(right).len() as int) =~= right);
    }
}

proof fn octets_of_a_dotted_form(written: Ipv4Addr)
    ensures
        ({
            let d = text::decimal(written.d as nat);
            let c = text::decimal(written.c as nat) + stopped(d);
            let b = text::decimal(written.b as nat) + stopped(c);
            &&& octet_read(dotted(written)) == Some((written.a, stopped(b)))
            &&& octet_read(b) == Some((written.b, stopped(c)))
            &&& octet_read(c) == Some((written.c, stopped(d)))
            &&& octet_read(d) == Some((written.d, Seq::<char>::empty()))
        }),
{
    reveal_strlit(".");
    let d = text::decimal(written.d as nat);
    let c = text::decimal(written.c as nat) + stopped(d);
    let b = text::decimal(written.b as nat) + stopped(c);
    a_written_octet_is_read(written.a, stopped(b));
    a_written_octet_is_read(written.b, stopped(c));
    a_written_octet_is_read(written.c, stopped(d));
    a_written_octet_is_read(written.d, Seq::empty());
    assert(d =~= d + Seq::<char>::empty());
}

/// The address `text` writes, where it writes one.
pub open spec fn address_read(text: Seq<char>) -> Option<Ipv4Addr> {
    if is_dotted(text) {
        Some(choose|address: Ipv4Addr| text == #[trigger] dotted(address))
    } else {
        None
    }
}

fn read_octet(text: &str) -> (octet: Option<(u8, &str)>)
    ensures
        match octet {
            None => octet_read(text@) is None,
            Some((value, rest)) => octet_read(text@) == Some((value, rest@)),
        },
{
    let length: usize = text.unicode_len();
    let digits: usize = duration::count_leading_digits(text);
    let run: &str = text.substring_char(0, digits);
    match duration::whole_number(run) {
        Some(value) if value <= 255 => {
            let written: String = text::number(value);
            if text::same(written.as_str(), run) {
                Some((value as u8, text.substring_char(digits, length)))
            } else {
                None
            }
        },
        _ => None,
    }
}

/// The text behind a leading full stop.
fn behind_stop(text: &str) -> (rest: Option<&str>)
    ensures
        match rest {
            None => forall|after: Seq<char>| text@ != #[trigger] stopped(after),
            Some(found) => {
                &&& text@ == stopped(found@)
                &&& forall|after: Seq<char>| text@ == #[trigger] stopped(after) ==> after == found@
            },
        },
{
    proof {
        reveal_strlit(".");
        assert forall|after: Seq<char>| #[trigger] stopped(after)[0] == '.' && stopped(
            after,
        ).subrange(1, stopped(after).len() as int) == after by {
            assert(stopped(after).subrange(1, stopped(after).len() as int) =~= after);
        }
    }
    let length: usize = text.unicode_len();
    if length > 0 && text.get_char(0) == '.' {
        let found: &str = text.substring_char(1, length);
        proof {
            assert(text@ =~= stopped(found@));
        }
        Some(found)
    } else {
        None
    }
}

impl Ipv4Addr {
    /// The address `text` writes in dotted-decimal notation, or `None` where it
    /// writes none.
    pub fn parse(text: &str) -> (address: Option<Self>)
        ensures
            address == address_read(text@),
            address matches Some(read) ==> text@ == dotted(read),
    {
        proof {
            if let Some(written) = address_read(text@) {
                octets_of_a_dotted_form(written);
            }
            an_octet_read_was_written(text@);
        }
        let (a, after_a): (u8, &str) = match read_octet(text) {
            None => {
                return None;
            },
            Some(read) => read,
        };
        let from_b: &str = match behind_stop(after_a) {
            None => {
                return None;
            },
            Some(rest) => rest,
        };
        proof {
            an_octet_read_was_written(from_b@);
        }
        let (b, after_b): (u8, &str) = match read_octet(from_b) {
            None => {
                return None;
            },
            Some(read) => read,
        };
        let from_c: &str = match behind_stop(after_b) {
            None => {
                return None;
            },
            Some(rest) => rest,
        };
        proof {
            an_octet_read_was_written(from_c@);
        }
        let (c, after_c): (u8, &str) = match read_octet(from_c) {
            None => {
                return None;
            },
            Some(read) => read,
        };
        let from_d: &str = match behind_stop(after_c) {
            None => {
                return None;
            },
            Some(rest) => rest,
        };
        proof {
            an_octet_read_was_written(from_d@);
        }
        let (d, after_d): (u8, &str) = match read_octet(from_d) {
            None => {
                return None;
            },
            Some(read) => read,
        };
        if after_d.unicode_len() != 0 {
            return None;
        }
        proof {
            assert(after_d@ =~= Seq::<char>::empty());
            assert(from_d@ =~= text::decimal(d as nat));
        }
        let read: Ipv4Addr = Ipv4Addr { a, b, c, d };
        proof {
            assert(text@ == dotted(read));
            dotted_forms_are_distinct(read, address_read(text@)->0);
        }
        Some(read)
    }

    /// Whether this is one of the 224.0.0.0/4 multicast addresses.
    pub fn is_multicast(&self) -> (multicast: bool)
        ensures
            multicast == self.multicast(),
    {
        224 <= self.a && self.a <= 239
    }

    /// See [`Ipv4Addr::is_multicast`].
    pub open spec fn multicast(self) -> bool {
        224 <= self.a <= 239
    }

    /// This address in dotted-decimal notation.
    pub fn to_text(&self) -> (text: String)
        ensures
            text@ == dotted(*self),
    {
        let mut text: String = text::number(self.a as u64);
        text.append(".");
        text.append(text::number(self.b as u64).as_str());
        text.append(".");
        text.append(text::number(self.c as u64).as_str());
        text.append(".");
        text.append(text::number(self.d as u64).as_str());
        proof {
            assert(text@ =~= dotted(*self));
        }
        text
    }
}

/// An address is written as its four octets in order, each in decimal, with a full
/// stop between each two.
pub proof fn an_address_is_written_octet_by_octet(address: Ipv4Addr)
    ensures
        dotted(address) == text::decimal(address.a as nat) + "."@ + text::decimal(
            address.b as nat,
        ) + "."@ + text::decimal(address.c as nat) + "."@ + text::decimal(address.d as nat),
{
    assert(dotted(address) =~= text::decimal(address.a as nat) + "."@ + text::decimal(
        address.b as nat,
    ) + "."@ + text::decimal(address.c as nat) + "."@ + text::decimal(address.d as nat));
}

/// What is written is read back, and nothing is read but what was written.
pub proof fn a_written_address_is_read_back(address: Ipv4Addr, text: Seq<char>)
    ensures
        address_read(dotted(address)) == Some(address),
        address_read(text) matches Some(read) ==> text == dotted(read),
{
    assert(is_dotted(dotted(address)));
    dotted_forms_are_distinct(address, address_read(dotted(address))->0);
}

/// The multicast addresses are those whose first octet is 224 to 239.
pub proof fn the_multicast_addresses(address: Ipv4Addr)
    ensures
        address.multicast() <==> 224 <= address.a && address.a < 240,
{
}

} // verus!
