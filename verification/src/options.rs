//! What the editor configures: the tool that writes file headers, and how it
//! is to be called.

use vstd::prelude::*;
use vstd::string::StringExecFns;
use crate::text::push_char;

verus! {

/// The options that the editor hands over when a session starts.
#[derive(Clone, Debug, PartialEq, Eq)]
pub struct InitOptions {
    /// The program that writes file headers.
    pub path: String,
    /// The author's name for the header.
    pub name: String,
    /// The author's address for the header.
    pub email: String,
    /// The offset for the header tool; 0 if there is none.
    pub offset: Option<i32>,
}

/// The character that writes the digit `d`.
pub open spec fn digit_char(d: int) -> char {
    (d + '0' as int) as char
}

/// The decimal digits of `n`, without leading zeros.
pub open spec fn decimal_digits(n: nat) -> Seq<char>
    decreases n,
{
    if n < 10 {
        seq![digit_char(n as int)]
    } else {
        decimal_digits(n / 10).push(digit_char((n % 10) as int))
    }
}

/// How `n` is written in decimal: a minus sign if it is negative, then its
/// digits.
pub open spec fn decimal(n: int) -> Seq<char> {
    if n < 0 {
        seq!['-'] + decimal_digits((-n) as nat)
    } else {
        decimal_digits(n as nat)
    }
}

/// The views of a sequence of strings, in the same order.
pub open spec fn string_views(strings: Seq<String>) -> Seq<Seq<char>> {
    strings.map_values(|s: String| s@)
}

/// Writes the decimal digits of `n` at the end of `s`.
fn push_decimal_digits(s: &mut String, n: u32)
    ensures
        final(s)@ == old(s)@ + decimal_digits(n as nat),
    decreases n,
{
    if n >= 10 {
        push_decimal_digits(s, n / 10);
    }
    push_char(s, ((n % 10) as u8 + '0' as u8) as char);
}

/// `n` written in decimal.
pub fn decimal_string(n: i32) -> (s: String)
    ensures
        s@ == decimal(n as int),
{
    let mut s = String::new();
    if n < 0 {
        push_char(&mut s, '-');
        push_decimal_digits(&mut s, (-(n as i64)) as u32);
    } else {
        push_decimal_digits(&mut s, n as u32);
    }
    s
}

impl InitOptions {
    /// The offset that the header tool is given: the configured one, or 0.
    pub open spec fn effective_offset(&self) -> int {
        match self.offset {
            Some(offset) => offset as int,
            None => 0,
        }
    }

    /// What the header tool is told about the file `file`.
    pub open spec fn arguments(&self, file: Seq<char>) -> Seq<Seq<char>> {
        seq![
            "--name"@,
            self.name@,
            "--email"@,
            self.email@,
            "--path"@,
            file,
            "--offset"@,
            decimal(self.effective_offset()),
        ]
    }

    /// The arguments with which to call the header tool for the file at the
    /// path `file`: the author's name and address, the file, and the offset.
    pub fn header_arguments(&self, file: &str) -> (args: Vec<String>)
        ensures
            string_views(args@) == self.arguments(file@),
    {
        let offset: i32 = match self.offset {
            Some(offset) => offset,
            None => 0,
        };
        let mut args: Vec<String> = Vec::new();
        args.push(String::from_str("--name"));
        args.push(self.name.clone());
        args.push(String::from_str("--email"));
        args.push(self.email.clone());
        args.push(String::from_str("--path"));
        args.push(String::from_str(file));
        args.push(String::from_str("--offset"));
        args.push(decimal_string(offset));
        args
    }
}

} // verus!
