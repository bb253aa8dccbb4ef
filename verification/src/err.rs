//! The ways an operation on the store can fail, and what is said of each.

use vstd::prelude::*;

verus! {

/// Why an operation on the store did not take effect.
#[derive(Clone, Copy, Debug, PartialEq, Eq)]
pub enum Error {
    /// The backing store could not take the change.
    Storage,
    /// No row of the table has this id.
    NotFound(i64),
    /// The recurrence rule was rejected, or it has no later occurrence.
    CronParse,
    /// The edit slot of this chat would not hold: a reminder of the chat was
    /// to be taken into the slot of another chat, or more than one reminder
    /// of the chat is in edit state.
    EditStateViolation(i64),
}

/// The character of a decimal digit.
pub open spec fn digit_char(d: int) -> char {
    if d == 0 {
        '0'
    } else if d == 1 {
        '1'
    } else if d == 2 {
        '2'
    } else if d == 3 {
        '3'
    } else if d == 4 {
        '4'
    } else if d == 5 {
        '5'
    } else if d == 6 {
        '6'
    } else if d == 7 {
        '7'
    } else if d == 8 {
        '8'
    } else {
        '9'
    }
}

/// The decimal digits of a natural number, without leading zeros.
pub open spec fn digits(n: nat) -> Seq<char>
    decreases n,
{
    if n < 10 {
        seq![digit_char(n as int)]
    } else {
        digits(n / 10).push(digit_char((n % 10) as int))
    }
}

/// A number in decimal notation, with a minus sign where it is negative.
pub open spec fn decimal(n: int) -> Seq<char> {
    if n < 0 {
        seq!['-'] + digits((-n) as nat)
    } else {
        digits(n as nat)
    }
}

fn digit_str(d: u64) -> (s: &'static str)
    requires
        d < 10,
    ensures
        s@ == seq![digit_char(d as int)],
{
    proof {
        reveal_strlit("0");
        reveal_strlit("1");
        reveal_strlit("2");
        reveal_strlit("3");
        reveal_strlit("4");
        reveal_strlit("5");
        reveal_strlit("6");
        reveal_strlit("7");
        reveal_strlit("8");
        reveal_strlit("9");
    }
    let s = if d == 0 {
        "0"
    } else if d == 1 {
        "1"
    } else if d == 2 {
        "2"
    } else if d == 3 {
        "3"
    } else if d == 4 {
        "4"
    } else if d == 5 {
        "5"
    } else if d == 6 {
        "6"
    } else if d == 7 {
        "7"
    } else if d == 8 {
        "8"
    } else {
        "9"
    };
    assert(s@ =~= seq![digit_char(d as int)]);
    s
}

fn append_digits(out: &mut String, n: u64)
    ensures
        final(out)@ == old(out)@ + digits(n as nat),
    decreases n,
{
    if n >= 10 {
        append_digits(out, n / 10);
    }
    out.append(digit_str(n % 10));
    assert(out@ =~= old(out)@ + digits(n as nat));
}

/// Writes `n` in decimal notation at the end of `out`.
pub fn append_decimal(out: &mut String, n: i64)
    ensures
        final(out)@ == old(out)@ + decimal(n as int),
{
    if n < 0 {
        proof {
            reveal_strlit("-");
        }
        out.append("-");
        let magnitude: u64 = (-(n + 1)) as u64 + 1;
        append_digits(out, magnitude);
        assert(out@ =~= old(out)@ + decimal(n as int));
    } else {
        append_digits(out, n as u64);
    }
}

impl Error {
    /// What is said of the error.
    pub open spec fn text(self) -> Seq<char> {
        match self {
            Error::Storage => "Database error: the store did not take the rows"@,
            Error::NotFound(id) => "Database error: RecordNotFound Error: "@ + decimal(id as int),
            Error::CronParse => "Cron parse error: no next occurrence"@,
            Error::EditStateViolation(chat_id) => "Database error: edit state violation in chat "@
                + decimal(chat_id as int),
        }
    }

    /// The error as a line of text.
    pub fn message(&self) -> (s: String)
        ensures
            s@ == self.text(),
    {
        match self {
            Error::Storage => "Database error: the store did not take the rows".to_owned(),
            Error::NotFound(id) => {
                let mut s = "Database error: RecordNotFound Error: ".to_owned();
                append_decimal(&mut s, *id);
                s
            },
            Error::CronParse => "Cron parse error: no next occurrence".to_owned(),
            Error::EditStateViolation(chat_id) => {
                let mut s = "Database error: edit state violation in chat ".to_owned();
                append_decimal(&mut s, *chat_id);
                s
            },
        }
    }
}

} // verus!
