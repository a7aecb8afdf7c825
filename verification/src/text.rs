//! Text that the commands produce: decimal numbers and lists of ids.

use vstd::prelude::*;
use vstd::string::StringExecFns;

verus! {

/// A line of text for one of the two output streams.
#[derive(Debug, PartialEq, Eq)]
pub enum OutputLine {
    /// A result, for the standard output.
    Stdout(String),
    /// A diagnostic, for the standard error stream.
    Stderr(String),
}

/// A line as a mathematical value.
pub enum OutputLineView {
    Stdout(Seq<char>),
    Stderr(Seq<char>),
}

impl View for OutputLine {
    type V = OutputLineView;

    open spec fn view(&self) -> OutputLineView {
        match *self {
            OutputLine::Stdout(text) => OutputLineView::Stdout(text@),
            OutputLine::Stderr(text) => OutputLineView::Stderr(text@),
        }
    }
}

/// The lines as mathematical values.
pub open spec fn line_views(lines: Seq<OutputLine>) -> Seq<OutputLineView> {
    lines.map_values(|line: OutputLine| line@)
}

/// The character of one decimal digit.
pub open spec fn digit(d: nat) -> char {
    if d == 0 {
        '0'
    } else if d == 1 {
        '1'
    } else if d == 2 {
        '2'
    } else if d == 3 {
        '3'
    } else if d == 4 {
        '4'
    } else if d == 5 {
        '5'
    } else if d == 6 {
        '6'
    } else if d == 7 {
        '7'
    } else if d == 8 {
        '8'
    } else {
        '9'
    }
}

/// A number in decimal notation, without sign or leading zeros.
pub open spec fn decimal(n: nat) -> Seq<char>
    decreases n,
{
    if n < 10 {
        seq![digit(n)]
    } else {
        decimal(n / 10).push(digit(n % 10))
    }
}

/// Ids in decimal notation, separated by a comma and a space.
pub open spec fn joined_ids(ids: Seq<usize>) -> Seq<char>
    decreases ids.len(),
{
    if ids.len() == 0 {
        Seq::empty()
    } else if ids.len() == 1 {
        decimal(ids[0] as nat)
    } else {
        joined_ids(ids.drop_last()) + seq![',', ' '] + decimal(ids.last() as nat)
    }
}

/// A list of ids in square brackets, as in `[0, 1, 2]`.
pub open spec fn id_list(ids: Seq<usize>) -> Seq<char> {
    seq!['['] + joined_ids(ids) + seq![']']
}

fn digit_str(d: usize) -> (s: &'static str)
    requires
        d < 10,
    ensures
        s@ == seq![digit(d as nat)],
{
    proof {
        reveal_strlit("0");
        reveal_strlit("1");
        reveal_strlit("2");
        reveal_strlit("3");
        reveal_strlit("4");
        reveal_strlit("5");
        reveal_strlit("6");
        reveal_strlit("7");
        reveal_strlit("8");
        reveal_strlit("9");
    }
    let s = if d == 0 {
        "0"
    } else if d == 1 {
        "1"
    } else if d == 2 {
        "2"
    } else if d == 3 {
        "3"
    } else if d == 4 {
        "4"
    } else if d == 5 {
        "5"
    } else if d == 6 {
        "6"
    } else if d == 7 {
        "7"
    } else if d == 8 {
        "8"
    } else {
        "9"
    };
    assert(s@ =~= seq![digit(d as nat)]);
    s
}

/// Writes a number in decimal notation.
pub fn to_decimal(n: usize) -> (s: String)
    ensures
        s@ == decimal(n as nat),
    decreases n,
{
    if n < 10 {
        String::from_str(digit_str(n))
    } else {
        let mut s = to_decimal(n / 10);
        s.append(digit_str(n % 10));
        s
    }
}

/// Writes a list of ids in square brackets.
pub fn format_ids(ids: &Vec<usize>) -> (s: String)
    ensures
        s@ == id_list(ids@),
{
    proof {
        reveal_strlit("[");
        reveal_strlit("]");
        reveal_strlit(", ");
    }
    let mut s = String::from_str("[");
    let mut i: usize = 0;
    while i < ids.len()
        invariant
            i <= ids.len(),
            s@ == seq!['['] + joined_ids(ids@.take(i as int)),
            ", "@ == seq![',', ' '],
        decreases ids.len() - i,
    {
        proof {
            assert(ids@.take(i + 1).drop_last() =~= ids@.take(i as int));
        }
        if i > 0 {
            s.append(", ");
        }
        let number = to_decimal(ids[i]);
        s.append(number.as_str());
        assert(s@ =~= seq!['['] + joined_ids(ids@.take(i + 1)));
        i = i + 1;
    }
    assert(ids@.take(ids.len() as int) =~= ids@);
    s.append("]");
    assert(s@ =~= id_list(ids@));
    s
}

} // verus!
