//! The textual rendering of a table's contents.

use vstd::prelude::*;
use vstd::string::*;

verus! {

/// The character of the decimal digit `d`.
pub open spec fn digit(d: nat) -> char {
    if d == 0 {
        '0'
    } else if d == 1 {
        '1'
    } else if d == 2 {
        '2'
    } else if d == 3 {
        '3'
    } else if d == 4 {
        '4'
    } else if d == 5 {
        '5'
    } else if d == 6 {
        '6'
    } else if d == 7 {
        '7'
    } else if d == 8 {
        '8'
    } else {
        '9'
    }
}

/// The decimal numeral of `n`, without leading zeros.
pub open spec fn decimal(n: nat) -> Seq<char>
    decreases n,
{
    if n < 10 {
        seq![digit(n)]
    } else {
        decimal(n / 10).push(digit(n % 10))
    }
}

/// One entry of the listing: the text of the value, then the number of
/// handles in round brackets.
pub open spec fn entry_text(entry: (Seq<char>, nat)) -> Seq<char> {
    entry.0 + seq![' ', '('] + decimal(entry.1) + seq![')']
}

/// The entries in order, separated by a comma and a space.
pub open spec fn joined(entries: Seq<(Seq<char>, nat)>) -> Seq<char>
    decreases entries.len(),
{
    if entries.len() == 0 {
        Seq::empty()
    } else if entries.len() == 1 {
        entry_text(entries[0])
    } else {
        joined(entries.drop_last()) + seq![',', ' '] + entry_text(entries.last())
    }
}

/// The listing of the entries: brace-delimited and comma-separated.
pub open spec fn listing(entries: Seq<(Seq<char>, nat)>) -> Seq<char> {
    seq!['{'] + joined(entries) + seq!['}']
}

/// The entries as the listing reads them: the text of each value and the
/// number of its handles.
pub open spec fn entries_of(entries: Seq<(String, usize)>) -> Seq<(Seq<char>, nat)> {
    Seq::new(entries.len(), |k: int| (entries[k].0@, entries[k].1 as nat))
}

/// The text of the decimal digit `d`.
fn digit_text(d: usize) -> (text: &'static str)
    requires
        d < 10,
    ensures
        text@ == seq![digit(d as nat)],
{
    proof {
        reveal_strlit("0");
        reveal_strlit("1");
        reveal_strlit("2");
        reveal_strlit("3");
        reveal_strlit("4");
        reveal_strlit("5");
        reveal_strlit("6");
        reveal_strlit("7");
        reveal_strlit("8");
        reveal_strlit("9");
    }
    if d == 0 {
        "0"
    } else if d == 1 {
        "1"
    } else if d == 2 {
        "2"
    } else if d == 3 {
        "3"
    } else if d == 4 {
        "4"
    } else if d == 5 {
        "5"
    } else if d == 6 {
        "6"
    } else if d == 7 {
        "7"
    } else if d == 8 {
        "8"
    } else {
        "9"
    }
}

/// Append the decimal numeral of `n` to `out`.
fn push_decimal(out: &mut String, n: usize)
    ensures
        final(out)@ == old(out)@ + decimal(n as nat),
    decreases n,
{
    if n >= 10 {
        push_decimal(out, n / 10);
    }
    out.append(digit_text(n % 10));
}

/// The listing of `entries`, each the text of a value and the number of its
/// handles: `{text (count), text (count)}`.
pub fn render_entries(entries: &Vec<(String, usize)>) -> (text: String)
    ensures
        text@ == listing(entries_of(entries@)),
{
    let ghost all = entries_of(entries@);
    let mut out = String::new();
    proof {
        reveal_strlit("{");
        reveal_strlit("}");
    }
    out.append("{");
    let mut i: usize = 0;
    while i < entries.len()
        invariant
            i <= entries.len(),
            all == entries_of(entries@),
            out@ == seq!['{'] + joined(all.take(i as int)),
        decreases entries.len() - i,
    {
        proof {
            reveal_strlit(", ");
            reveal_strlit(" (");
            reveal_strlit(")");
        }
        if i != 0 {
            out.append(", ");
        }
        out.append(entries[i].0.as_str());
        out.append(" (");
        push_decimal(&mut out, entries[i].1);
        out.append(")");
        proof {
            let upto = all.take(i as int + 1);
            assert(upto.drop_last() =~= all.take(i as int));
            assert(out@ =~= seq!['{'] + joined(upto));
        }
        i = i + 1;
    }
    out.append("}");
    proof {
        assert(all.take(entries.len() as int) =~= all);
    }
    out
}

} // verus!
