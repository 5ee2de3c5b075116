use vstd::prelude::*;
use crate::prefix::{
    byte_mode_output, byte_piece, byte_stream, line_mode_output, line_pieces, min, rendered_line,
};
use crate::render::{decimal, digit_char, green_on, header, number_mark, style_off};

verus! {

/// How many newline characters `s` holds.
pub open spec fn line_breaks(s: Seq<char>) -> nat
    decreases s.len(),
{
    if s.len() == 0 {
        0
    } else {
        line_breaks(s.drop_last()) + if s.last() == '\n' {
            1nat
        } else {
            0nat
        }
    }
}

/// No line of `lines` holds a newline, as after splitting a text into lines.
pub open spec fn newline_free(lines: Seq<Seq<char>>) -> bool {
    forall|i: int, j: int| 0 <= i < lines.len() && 0 <= j < lines[i].len() ==> #[trigger] lines[i][j]
        != '\n'
}

proof fn lemma_breaks_concat(a: Seq<char>, b: Seq<char>)
    ensures
        line_breaks(a + b) == line_breaks(a) + line_breaks(b),
    decreases b.len(),
{
    if b.len() == 0 {
        assert(a + b =~= a);
    } else {
        assert((a + b).drop_last() =~= a + b.drop_last());
        lemma_breaks_concat(a, b.drop_last());
    }
}

proof fn lemma_no_newline_no_breaks(s: Seq<char>)
    requires
        forall|j: int| 0 <= j < s.len() ==> s[j] != '\n',
    ensures
        line_breaks(s) == 0,
    decreases s.len(),
{
    if s.len() > 0 {
        lemma_no_newline_no_breaks(s.drop_last());
    }
}

proof fn lemma_decimal_no_breaks(n: nat)
    ensures
        forall|j: int| 0 <= j < decimal(n).len() ==> decimal(n)[j] != '\n',
    decreases n,
{
    let d = n % 10;
    assert(((d + 48) as u8) as nat == d + 48);
    assert((((d + 48) as u8) as char) as u32 == ((d + 48) as u8) as u32);
    assert(digit_char(d) != '\n');
    assert(decimal(n) == if n < 10 {
        seq![digit_char(n)]
    } else {
        decimal(n / 10).push(digit_char(d))
    });
    if n >= 10 {
        lemma_decimal_no_breaks(n / 10);
    }
}

proof fn lemma_mark_no_breaks(k: nat)
    ensures
        line_breaks(number_mark(k)) == 0,
{
    lemma_decimal_no_breaks(k);
    let m = number_mark(k);
    assert(m == green_on() + decimal(k) + style_off() + seq![':', ' ']);
    assert forall|j: int| 0 <= j < m.len() implies m[j] != '\n' by {
        if j >= green_on().len() && j < green_on().len() + decimal(k).len() {
            assert(m[j] == decimal(k)[j - green_on().len()]);
        }
    }
    lemma_no_newline_no_breaks(m);
}

proof fn lemma_rendered_line_one_break(k: nat, line: Seq<char>, quiet: bool)
    requires
        forall|j: int| 0 <= j < line.len() ==> line[j] != '\n',
    ensures
        line_breaks(rendered_line(k, line, quiet)) == 1,
{
    lemma_no_newline_no_breaks(line);
    assert(line.push('\n').drop_last() =~= line);
    if !quiet {
        lemma_mark_no_breaks(k);
        lemma_breaks_concat(number_mark(k), line.push('\n'));
    }
}

proof fn lemma_flatten_breaks(pieces: Seq<Seq<char>>)
    requires
        forall|i: int| 0 <= i < pieces.len() ==> line_breaks(#[trigger] pieces[i]) == 1,
    ensures
        line_breaks(pieces.flatten()) == pieces.len(),
    decreases pieces.len(),
{
    if pieces.len() > 0 {
        let rest = pieces.drop_first();
        assert forall|i: int| 0 <= i < rest.len() implies line_breaks(#[trigger] rest[i]) == 1 by {
            assert(rest[i] == pieces[i + 1]);
        }
        lemma_flatten_breaks(rest);
        lemma_breaks_concat(pieces[0], rest.flatten());
    }
}

proof fn lemma_pieces_breaks(lines: Seq<Seq<char>>, k: nat, quiet: bool)
    requires
        newline_free(lines),
        k <= lines.len(),
    ensures
        line_breaks(line_pieces(lines, k, quiet).flatten()) == k,
{
    let p = line_pieces(lines, k, quiet);
    assert forall|i: int| 0 <= i < p.len() implies line_breaks(#[trigger] p[i]) == 1 by {
        assert forall|j: int| 0 <= j < lines[i].len() implies lines[i][j] != '\n' by {
            assert(lines[i][j] != '\n');
        }
        lemma_rendered_line_one_break((i + 1) as nat, lines[i], quiet);
    }
    lemma_flatten_breaks(p);
}

/// Asked for `n` lines of an input that has at least `n`, line mode writes
/// exactly `n` lines: line `i` of the input, behind the number `i + 1` unless
/// quiet.
pub proof fn lemma_enough_lines(lines: Seq<Seq<char>>, n: nat, quiet: bool)
    requires
        newline_free(lines),
        n <= lines.len(),
    ensures
        line_breaks(line_mode_output(lines, n, quiet)) == n,
        line_mode_output(lines, n, quiet) == line_pieces(lines, n, quiet).flatten(),
        line_pieces(lines, n, quiet).len() == n,
        forall|i: int|
            0 <= i < n ==> #[trigger] line_pieces(lines, n, quiet)[i] == (if quiet {
                lines[i].push('\n')
            } else {
                number_mark((i + 1) as nat) + lines[i].push('\n')
            }),
{
    lemma_pieces_breaks(lines, n, quiet);
}

/// Asked for at least as many lines as the input has, line mode writes all of
/// them and nothing more: what it writes for the input's own line count.
pub proof fn lemma_short_input(lines: Seq<Seq<char>>, n: nat, quiet: bool)
    requires
        newline_free(lines),
        n >= lines.len(),
    ensures
        line_breaks(line_mode_output(lines, n, quiet)) == lines.len(),
        line_mode_output(lines, n, quiet) == line_mode_output(lines, lines.len(), quiet),
{
    lemma_pieces_breaks(lines, lines.len(), quiet);
}

proof fn lemma_quiet_bytes(s: Seq<u8>)
    ensures
        byte_stream(s, true) == s.map_values(|b: u8| b as char),
    decreases s.len(),
{
    if s.len() > 0 {
        lemma_quiet_bytes(s.drop_last());
        assert(s.map_values(|b: u8| b as char) =~= s.drop_last().map_values(|b: u8| b as char).push(
            s.last() as char,
        ));
        assert(byte_piece(s.last(), 0, true) =~= seq![s.last() as char]);
    } else {
        assert(s.map_values(|b: u8| b as char) =~= Seq::<char>::empty());
    }
}

/// In quiet mode nothing decorates the output: no file header, no line
/// numbers. Line mode writes the lines themselves, each ended by a newline,
/// and byte mode writes each byte as the character of the same code.
pub proof fn lemma_quiet_is_plain(name: Seq<char>, lines: Seq<Seq<char>>, bytes: Seq<u8>, n: nat)
    ensures
        header(name, true) == Seq::<char>::empty(),
        line_mode_output(lines, n, true) == Seq::new(
            min(n, lines.len()),
            |i: int| lines[i].push('\n'),
        ).flatten(),
        byte_mode_output(bytes, n, true) == bytes.take(min(n, bytes.len()) as int).map_values(
            |b: u8| b as char,
        ),
{
    let k = min(n, lines.len());
    assert(line_pieces(lines, k, true) =~= Seq::new(k, |i: int| lines[i].push('\n')));
    lemma_quiet_bytes(bytes.take(min(n, bytes.len()) as int));
}

/// Reading the same lines twice with the same count gives the same output:
/// the output depends on the input, the count and the quiet flag alone.
pub proof fn lemma_line_mode_repeatable(
    lines: Seq<Seq<char>>,
    n: nat,
    quiet: bool,
    first: Seq<char>,
    second: Seq<char>,
)
    requires
        first == line_mode_output(lines, n, quiet),
        second == line_mode_output(lines, n, quiet),
    ensures
        first == second,
{
}

} // verus!
