//! Rendering of the address table as the text of a TypeScript module.
use vstd::prelude::*;

verus! {

/// The address entries of one network, in the order in which they are rendered:
/// (contract name, address).
pub type NetworkAddresses = Vec<(String, String)>;

/// The address table: for each network identifier, its entries.
pub type ContractAddresses = Vec<(u64, NetworkAddresses)>;

/// The character of a decimal digit.
pub open spec fn digit_char(d: nat) -> char {
    if d == 0 {
        '0'
    } else if d == 1 {
        '1'
    } else if d == 2 {
        '2'
    } else if d == 3 {
        '3'
    } else if d == 4 {
        '4'
    } else if d == 5 {
        '5'
    } else if d == 6 {
        '6'
    } else if d == 7 {
        '7'
    } else if d == 8 {
        '8'
    } else {
        '9'
    }
}

/// The decimal notation of `n`, without leading zeros.
pub open spec fn decimal(n: nat) -> Seq<char>
    decreases n,
{
    if n < 10 {
        seq![digit_char(n)]
    } else {
        decimal(n / 10).push(digit_char(n % 10))
    }
}

/// The line of one contract: `    "<name>": "<address>",`.
pub open spec fn entry_text(e: (Seq<char>, Seq<char>)) -> Seq<char> {
    "    \""@ + e.0 + "\": \""@ + e.1 + "\",\n"@
}

/// The lines of a network's contracts, in order.
pub open spec fn entries_text(es: Seq<(Seq<char>, Seq<char>)>) -> Seq<char>
    decreases es.len(),
{
    if es.len() == 0 {
        Seq::empty()
    } else {
        entries_text(es.drop_last()) + entry_text(es.last())
    }
}

/// The block of one network: its numeric key, its contract lines, and the closing brace.
pub open spec fn network_text(n: (u64, Seq<(Seq<char>, Seq<char>)>)) -> Seq<char> {
    "  "@ + decimal(n.0 as nat) + ": {\n"@ + entries_text(n.1) + "  },\n"@
}

/// The blocks of all networks, in order.
pub open spec fn networks_text(t: Seq<(u64, Seq<(Seq<char>, Seq<char>)>)>) -> Seq<char>
    decreases t.len(),
{
    if t.len() == 0 {
        Seq::empty()
    } else {
        networks_text(t.drop_last()) + network_text(t.last())
    }
}

/// The whole addresses module for the table `t`.
pub open spec fn addresses_text(t: Seq<(u64, Seq<(Seq<char>, Seq<char>)>)>) -> Seq<char> {
    "export const ContractAddress = {\n"@ + networks_text(t) + "} as const;\n"@
}

fn digit_str(d: u64) -> (r: &'static str)
    requires
        d < 10,
    ensures
        r@ == seq![digit_char(d as nat)],
{
    proof {
        reveal_strlit("0");
        reveal_strlit("1");
        reveal_strlit("2");
        reveal_strlit("3");
        reveal_strlit("4");
        reveal_strlit("5");
        reveal_strlit("6");
        reveal_strlit("7");
        reveal_strlit("8");
        reveal_strlit("9");
    }
    if d == 0 {
        "0"
    } else if d == 1 {
        "1"
    } else if d == 2 {
        "2"
    } else if d == 3 {
        "3"
    } else if d == 4 {
        "4"
    } else if d == 5 {
        "5"
    } else if d == 6 {
        "6"
    } else if d == 7 {
        "7"
    } else if d == 8 {
        "8"
    } else {
        assert(seq!['9'] =~= "9"@);
        "9"
    }
}

/// Appends the decimal notation of `n` to `s`.
pub fn push_decimal(s: &mut String, n: u64)
    ensures
        final(s)@ == old(s)@ + decimal(n as nat),
    decreases n,
{
    if n >= 10 {
        push_decimal(s, n / 10);
    }
    s.append(digit_str(n % 10));
    assert(final(s)@ =~= old(s)@ + decimal(n as nat));
}

} // verus!
