use vstd::prelude::*;
use crate::prefix::Mode;
use crate::units::{
    byte_spec_value, count_unit_groups, line_count_value, parse_byte_spec, parse_line_count,
    ByteSpecError, NumError,
};

verus! {

/// One input to read.
#[derive(Debug)]
pub enum Designator {
    /// The process's standard input.
    Stdin,
    /// The file of this name.
    File(String),
}

/// What `arg` designates: a file of that name, or standard input where `-`
/// is taken to mean it.
pub open spec fn designates(d: Designator, arg: Seq<char>, dash_is_stdin: bool) -> bool {
    if dash_is_stdin && arg == seq!['-'] {
        d is Stdin
    } else {
        d matches Designator::File(f) && f@ == arg
    }
}

fn is_dash(s: &str) -> (r: bool)
    ensures
        r == (s@ == seq!['-']),
{
    if s.unicode_len() != 1 {
        return false;
    }
    let c = s.get_char(0);
    proof {
        if c == '-' {
            assert(s@ =~= seq!['-']);
        }
    }
    c == '-'
}

/// The inputs named by the positional arguments, in order: one per argument,
/// or standard input alone where there is none.
pub fn designators(files: &Vec<String>, dash_is_stdin: bool) -> (r: Vec<Designator>)
    ensures
        files@.len() == 0 ==> r@.len() == 1 && r@[0] is Stdin,
        files@.len() > 0 ==> r@.len() == files@.len(),
        files@.len() > 0 ==> forall|i: int|
            0 <= i < files@.len() ==> designates(#[trigger] r@[i], files@[i]@, dash_is_stdin),
{
    let mut r: Vec<Designator> = Vec::new();
    if files.len() == 0 {
        r.push(Designator::Stdin);
        return r;
    }
    let mut i: usize = 0;
    while i < files.len()
        invariant
            i <= files@.len(),
            r@.len() == i,
            forall|j: int| 0 <= j < i ==> designates(#[trigger] r@[j], files@[j]@, dash_is_stdin),
        decreases files@.len() - i,
    {
        let name = &files[i];
        if dash_is_stdin && is_dash(name.as_str()) {
            r.push(Designator::Stdin);
        } else {
            r.push(Designator::File(name.clone()));
        }
        i = i + 1;
    }
    r
}

/// Why the options could not be turned into a mode.
#[derive(Clone, Copy, Debug, PartialEq, Eq, Structural)]
pub enum ArgError {
    /// The byte-count option was rejected.
    ByteSpec(ByteSpecError),
    /// The line-count option was rejected.
    LineCount(NumError),
}

/// The line count used where none is given.
pub open spec fn default_lines() -> Seq<char> {
    seq!['1', '0']
}

/// The mode that the byte-count and line-count options select: bytes where
/// the byte option is given, else lines, ten by default.
pub open spec fn mode_value(bytes: Option<Seq<char>>, lines: Option<Seq<char>>) -> Result<Mode, ArgError> {
    match bytes {
        Some(b) => match byte_spec_value(count_unit_groups(b)) {
            Ok(v) => Ok(Mode::Bytes(v as u64)),
            Err(e) => Err(ArgError::ByteSpec(e)),
        },
        None => {
            let t = match lines {
                Some(l) => l,
                None => default_lines(),
            };
            match line_count_value(t) {
                Ok(v) => Ok(Mode::Lines(v as u64)),
                Err(e) => Err(ArgError::LineCount(e)),
            }
        },
    }
}

pub open spec fn opt_view(o: Option<&str>) -> Option<Seq<char>> {
    match o {
        Some(s) => Some(s@),
        None => None,
    }
}

/// Chooses the mode from the values of the byte-count and line-count options.
pub fn resolve_mode(bytes: Option<&str>, lines: Option<&str>) -> (r: Result<Mode, ArgError>)
    ensures
        r == mode_value(opt_view(bytes), opt_view(lines)),
{
    match bytes {
        Some(b) => match parse_byte_spec(b) {
            Ok(v) => Ok(Mode::Bytes(v)),
            Err(e) => Err(ArgError::ByteSpec(e)),
        },
        None => {
            let t: &str = match lines {
                Some(l) => l,
                None => "10",
            };
            proof {
                reveal_strlit("10");
                assert("10"@ =~= default_lines());
            }
            match parse_line_count(t) {
                Ok(v) => Ok(Mode::Lines(v)),
                Err(e) => Err(ArgError::LineCount(e)),
            }
        },
    }
}

} // verus!
