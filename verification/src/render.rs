//! Text for the operator: port numbers, the address a node listens on, and
//! lists of addresses.

use vstd::prelude::*;
use vstd::string::StringExecFns;

verus! {

/// The character of a decimal digit.
pub open spec fn digit(d: nat) -> char {
    if d == 0 {
        '0'
    } else if d == 1 {
        '1'
    } else if d == 2 {
        '2'
    } else if d == 3 {
        '3'
    } else if d == 4 {
        '4'
    } else if d == 5 {
        '5'
    } else if d == 6 {
        '6'
    } else if d == 7 {
        '7'
    } else if d == 8 {
        '8'
    } else {
        '9'
    }
}

/// A number in decimal, without leading zeros.
pub open spec fn decimal(n: nat) -> Seq<char>
    decreases n,
{
    if n < 10 {
        seq![digit(n)]
    } else {
        decimal(n / 10).push(digit(n % 10))
    }
}

/// The text `127.0.0.1:`.
pub open spec fn loopback_prefix() -> Seq<char> {
    seq!['1', '2', '7', '.', '0', '.', '0', '.', '1', ':']
}

/// The address on which a node with the given port listens, as text: the
/// loopback address, a colon, the port in decimal.
pub open spec fn listening_text(port: nat) -> Seq<char> {
    loopback_prefix() + decimal(port)
}

/// An item between double quotes.
pub open spec fn quoted(item: Seq<char>) -> Seq<char> {
    seq!['"'] + item + seq!['"']
}

/// The items, each between double quotes, with a comma and a space between
/// one and the next.
pub open spec fn joined(items: Seq<Seq<char>>) -> Seq<char>
    decreases items.len(),
{
    if items.len() == 0 {
        Seq::empty()
    } else if items.len() == 1 {
        quoted(items[0])
    } else {
        joined(items.drop_last()) + seq![',', ' '] + quoted(items.last())
    }
}

/// A list of addresses as the operator reads it: `[no one]` for no address,
/// else the quoted addresses between square brackets.
pub open spec fn list_text(items: Seq<Seq<char>>) -> Seq<char> {
    if items.len() == 0 {
        seq!['[', 'n', 'o', ' ', 'o', 'n', 'e', ']']
    } else {
        seq!['['] + joined(items) + seq![']']
    }
}

/// What went wrong and with what: the reason, a colon and a space, the
/// subject.
pub open spec fn failure_text(reason: Seq<char>, subject: Seq<char>) -> Seq<char> {
    reason + seq![':', ' '] + subject
}

/// The text of each string.
pub open spec fn texts(items: Seq<String>) -> Seq<Seq<char>> {
    items.map_values(|item: String| item@)
}

fn digit_text(d: u32) -> (text: &'static str)
    requires
        d < 10,
    ensures
        text@ == seq![digit(d as nat)],
{
    proof {
        reveal_strlit("0");
        reveal_strlit("1");
        reveal_strlit("2");
        reveal_strlit("3");
        reveal_strlit("4");
        reveal_strlit("5");
        reveal_strlit("6");
        reveal_strlit("7");
        reveal_strlit("8");
        reveal_strlit("9");
    }
    let text = if d == 0 {
        "0"
    } else if d == 1 {
        "1"
    } else if d == 2 {
        "2"
    } else if d == 3 {
        "3"
    } else if d == 4 {
        "4"
    } else if d == 5 {
        "5"
    } else if d == 6 {
        "6"
    } else if d == 7 {
        "7"
    } else if d == 8 {
        "8"
    } else {
        "9"
    };
    assert(text@ =~= seq![digit(d as nat)]);
    text
}

/// Appends `n` in decimal.
pub fn push_decimal(out: &mut String, n: u32)
    ensures
        final(out)@ == old(out)@ + decimal(n as nat),
    decreases n,
{
    if n >= 10 {
        push_decimal(out, n / 10);
    }
    out.append(digit_text(n % 10));
    assert(final(out)@ =~= old(out)@ + decimal(n as nat));
}

/// The address on which a node with the given port listens, as text.
pub fn listening_addr(port: u32) -> (text: String)
    ensures
        text@ == listening_text(port as nat),
{
    proof {
        reveal_strlit("127.0.0.1:");
    }
    let mut text = String::from_str("127.0.0.1:");
    assert(text@ =~= loopback_prefix());
    push_decimal(&mut text, port);
    text
}

/// The reason of a failure and what it failed on, in one line.
pub fn describe_failure(reason: &str, subject: &str) -> (text: String)
    ensures
        text@ == failure_text(reason@, subject@),
{
    proof {
        reveal_strlit(": ");
    }
    let mut text = String::from_str(reason);
    text.append(": ");
    text.append(subject);
    assert(text@ =~= failure_text(reason@, subject@));
    text
}

/// A list of addresses, each already rendered, as the operator reads it.
pub fn format_list_of_addrs(items: &Vec<String>) -> (text: String)
    ensures
        text@ == list_text(texts(items@)),
{
    proof {
        reveal_strlit("[no one]");
        reveal_strlit("[");
        reveal_strlit("]");
        reveal_strlit(", ");
        reveal_strlit("\"");
    }
    let ghost all = texts(items@);
    if items.len() == 0 {
        let text = String::from_str("[no one]");
        assert(text@ =~= list_text(all));
        return text;
    }
    let mut text = String::from_str("[");
    let mut at: usize = 0;
    while at < items.len()
        invariant
            at <= items.len(),
            all == texts(items@),
            text@ == seq!['['] + joined(all.take(at as int)),
            "\""@ == seq!['"'],
            ", "@ == seq![',', ' '],
        decreases items.len() - at,
    {
        proof {
            let before = all.take(at as int);
            let now = all.take(at + 1);
            assert(now.drop_last() =~= before);
            assert(now.last() == items@[at as int]@);
            if at == 0 {
                assert(before =~= Seq::<Seq<char>>::empty());
                assert(joined(before) =~= Seq::<char>::empty());
            }
        }
        if at > 0 {
            text.append(", ");
        }
        text.append("\"");
        text.append(items[at].as_str());
        text.append("\"");
        assert(text@ =~= seq!['['] + joined(all.take(at + 1)));
        at += 1;
    }
    text.append("]");
    proof {
        assert(all.take(at as int) =~= all);
        assert(text@ =~= list_text(all));
    }
    text
}

} // verus!
