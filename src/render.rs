use vstd::prelude::*;

verus! {

/// The character that stands for a decimal digit `d < 10`.
pub open spec fn digit_char(d: nat) -> char {
    ((d + 48) as u8) as char
}

/// The decimal notation of `n`, most significant digit first, no leading zeros.
pub open spec fn decimal(n: nat) -> Seq<char>
    decreases n,
{
    if n < 10 {
        seq![digit_char(n)]
    } else {
        decimal(n / 10).push(digit_char(n % 10))
    }
}

/// Writes `n` in decimal.
pub fn decimal_chars(n: u128) -> (r: Vec<char>)
    ensures
        r@ == decimal(n as nat),
    decreases n,
{
    let d: u8 = (n % 10) as u8 + 48;
    if n < 10 {
        let mut r: Vec<char> = Vec::new();
        r.push(d as char);
        r
    } else {
        let mut r = decimal_chars(n / 10);
        r.push(d as char);
        r
    }
}


/// The escape sequence that turns text green.
pub open spec fn green_on() -> Seq<char> {
    seq!['\u{1b}', '[', '3', '2', 'm']
}

/// The escape sequence that turns text bold and red.
pub open spec fn bold_red_on() -> Seq<char> {
    seq!['\u{1b}', '[', '1', ';', '3', '1', 'm']
}

/// The escape sequence that resets all styling.
pub open spec fn style_off() -> Seq<char> {
    seq!['\u{1b}', '[', '0', 'm']
}

/// Relies on ansi_term's `Colour::Green.paint`: the text between the green
/// escape sequence and the reset sequence.
#[verifier::external_body]
fn paint_green(text: &Vec<char>) -> (r: Vec<char>)
    ensures
        r@ == green_on() + text@ + style_off(),
{
    let s: String = text.iter().collect();
    ansi_term::Colour::Green.paint(s).to_string().chars().collect()
}

/// Relies on ansi_term's `Colour::Red.bold().paint`: the text between the
/// bold-red escape sequence and the reset sequence.
#[verifier::external_body]
fn paint_bold_red(text: &str) -> (r: Vec<char>)
    ensures
        r@ == bold_red_on() + text@ + style_off(),
{
    ansi_term::Colour::Red.bold().paint(text).to_string().chars().collect()
}

/// The mark in front of output line `k`: its number in green, then `": "`.
pub open spec fn number_mark(k: nat) -> Seq<char> {
    green_on() + decimal(k) + style_off() + seq![':', ' ']
}

/// The header that announces a named file: its name in bold red on a line of
/// its own; nothing in quiet mode.
pub open spec fn header(name: Seq<char>, quiet: bool) -> Seq<char> {
    if quiet {
        Seq::empty()
    } else {
        bold_red_on() + name + style_off() + seq!['\n']
    }
}

/// Writes the mark in front of output line `k`.
pub fn number_mark_chars(k: u128) -> (r: Vec<char>)
    ensures
        r@ == number_mark(k as nat),
{
    let digits = decimal_chars(k);
    let mut r = paint_green(&digits);
    r.push(':');
    r.push(' ');
    assert(r@ =~= number_mark(k as nat));
    r
}

/// Writes the header for the file `name`.
pub fn header_line(name: &str, quiet: bool) -> (r: Vec<char>)
    ensures
        r@ == header(name@, quiet),
{
    if quiet {
        return Vec::new();
    }
    let mut r = paint_bold_red(name);
    r.push('\n');
    r
}

} // verus!
