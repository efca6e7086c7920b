//! The single error value that aborts a parse.
use vstd::prelude::*;

use crate::codec::OsAbi;


verus! {

/// Why a parse was abandoned.
#[derive(Debug, Clone, Copy, PartialEq, Eq, Structural)]
pub enum ErrorKind {
    /// The byte source ended before a field or payload it was asked for.
    Truncated,
    /// The magic bytes or the class byte do not describe a 64-bit ELF file.
    NotElf64,
    /// The OS/ABI byte names a convention other than System V.
    UnsupportedOsAbi(OsAbi),
}

#[derive(Debug, Clone, Copy, PartialEq, Eq, Structural)]
pub struct Error {
    pub kind: ErrorKind,
}

impl Error {
    pub fn new(kind: ErrorKind) -> (r: Error)
        ensures
            r.kind == kind,
    {
        Error { kind }
    }

    /// The text shown to a user for this error.
    pub fn message(&self) -> (r: String)
        ensures
            r@ == message_of(self.kind),
    {
        match self.kind {
            ErrorKind::Truncated => String::from_str("failed to fill whole buffer"),
            ErrorKind::NotElf64 => String::from_str("File format is not ELF64!"),
            ErrorKind::UnsupportedOsAbi(os_abi) => {
                let mut r = String::from_str("OS ");
                push_os_abi(&mut r, os_abi);
                r.append(" does not match expected Unix System V");
                r
            },
        }
    }
}

pub open spec fn digit_char(d: nat) -> char {
    if d == 0 {
        '0'
    } else if d == 1 {
        '1'
    } else if d == 2 {
        '2'
    } else if d == 3 {
        '3'
    } else if d == 4 {
        '4'
    } else if d == 5 {
        '5'
    } else if d == 6 {
        '6'
    } else if d == 7 {
        '7'
    } else if d == 8 {
        '8'
    } else {
        '9'
    }
}

/// The decimal digits of `n`, most significant first, without leading zeros.
pub open spec fn decimal(n: nat) -> Seq<char>
    decreases n,
{
    if n < 10 {
        seq![digit_char(n)]
    } else {
        decimal(n / 10).push(digit_char(n % 10))
    }
}

/// How an OS/ABI variant is written in messages.
pub open spec fn os_abi_text(os_abi: OsAbi) -> Seq<char> {
    match os_abi {
        OsAbi::SystemV => seq!['S', 'y', 's', 't', 'e', 'm', 'V'],
        OsAbi::Linux => seq!['L', 'i', 'n', 'u', 'x'],
        OsAbi::Other(value) => seq!['O', 't', 'h', 'e', 'r', '('] + decimal(value as nat) + seq![')'],
    }
}

pub open spec fn message_of(kind: ErrorKind) -> Seq<char> {
    match kind {
        ErrorKind::Truncated => "failed to fill whole buffer"@,
        ErrorKind::NotElf64 => "File format is not ELF64!"@,
        ErrorKind::UnsupportedOsAbi(os_abi) => "OS "@ + os_abi_text(os_abi)
            + " does not match expected Unix System V"@,
    }
}

fn digit_str(d: u8) -> (r: &'static str)
    requires
        d < 10,
    ensures
        r@ == seq![digit_char(d as nat)],
{
    match d {
        0 => {
            proof { reveal_strlit("0"); }
            "0"
        },
        1 => {
            proof { reveal_strlit("1"); }
            "1"
        },
        2 => {
            proof { reveal_strlit("2"); }
            "2"
        },
        3 => {
            proof { reveal_strlit("3"); }
            "3"
        },
        4 => {
            proof { reveal_strlit("4"); }
            "4"
        },
        5 => {
            proof { reveal_strlit("5"); }
            "5"
        },
        6 => {
            proof { reveal_strlit("6"); }
            "6"
        },
        7 => {
            proof { reveal_strlit("7"); }
            "7"
        },
        8 => {
            proof { reveal_strlit("8"); }
            "8"
        },
        _ => {
            proof { reveal_strlit("9"); }
            "9"
        },
    }
}

fn push_decimal(out: &mut String, n: u8)
    ensures
        final(out)@ == old(out)@ + decimal(n as nat),
{
    proof {
        reveal_with_fuel(decimal, 3);
    }
    if n >= 100 {
        out.append(digit_str(n / 100));
        out.append(digit_str(n / 10 % 10));
        out.append(digit_str(n % 10));
        assert(decimal(n as nat) =~= seq![
            digit_char((n / 100) as nat),
            digit_char((n / 10 % 10) as nat),
            digit_char((n % 10) as nat),
        ]);
    } else if n >= 10 {
        out.append(digit_str(n / 10));
        out.append(digit_str(n % 10));
        assert(decimal(n as nat) =~= seq![digit_char((n / 10) as nat), digit_char((n % 10) as nat)]);
    } else {
        out.append(digit_str(n));
    }
    assert(out@ =~= old(out)@ + decimal(n as nat));
}

fn push_os_abi(out: &mut String, os_abi: OsAbi)
    ensures
        final(out)@ == old(out)@ + os_abi_text(os_abi),
{
    match os_abi {
        OsAbi::SystemV => {
            proof { reveal_strlit("SystemV"); }
            out.append("SystemV");
        },
        OsAbi::Linux => {
            proof { reveal_strlit("Linux"); }
            out.append("Linux");
        },
        OsAbi::Other(value) => {
            proof { reveal_strlit("Other("); reveal_strlit(")"); }
            out.append("Other(");
            push_decimal(out, value);
            out.append(")");
        },
    }
    assert(out@ =~= old(out)@ + os_abi_text(os_abi));
}


} // verus!
