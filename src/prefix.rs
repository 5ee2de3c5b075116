use vstd::prelude::*;
use crate::render::{number_mark, number_mark_chars};

verus! {

/// How the prefix of an input is measured.
#[derive(Clone, Copy, Debug, PartialEq, Eq, Structural)]
pub enum Mode {
    /// The first so many lines.
    Lines(u64),
    /// The first so many bytes.
    Bytes(u64),
}

impl Mode {
    /// How many lines or bytes the mode asks for.
    pub open spec fn limit(self) -> nat {
        match self {
            Mode::Lines(n) => n as nat,
            Mode::Bytes(n) => n as nat,
        }
    }
}

pub open spec fn min(a: nat, b: nat) -> nat {
    if a <= b {
        a
    } else {
        b
    }
}

/// Output line `k` of line mode: the line and a newline, behind its number
/// mark unless quiet.
pub open spec fn rendered_line(k: nat, line: Seq<char>, quiet: bool) -> Seq<char> {
    if quiet {
        line.push('\n')
    } else {
        number_mark(k) + line.push('\n')
    }
}

/// The first `k` lines, each as it is written out.
pub open spec fn line_pieces(lines: Seq<Seq<char>>, k: nat, quiet: bool) -> Seq<Seq<char>> {
    Seq::new(k, |i: int| rendered_line((i + 1) as nat, lines[i], quiet))
}

/// What line mode writes for an input of `lines` when `n` lines are asked for.
pub open spec fn line_mode_output(lines: Seq<Seq<char>>, n: nat, quiet: bool) -> Seq<char> {
    line_pieces(lines, min(n, lines.len()), quiet).flatten()
}

/// How many newline bytes `s` holds.
pub open spec fn newline_count(s: Seq<u8>) -> nat
    decreases s.len(),
{
    if s.len() == 0 {
        0
    } else {
        newline_count(s.drop_last()) + if s.last() == 10 {
            1nat
        } else {
            0nat
        }
    }
}

/// What byte mode writes for byte `b` on output line `k`: the byte as a
/// character and, unless quiet, after a newline the mark of line `k + 1`.
pub open spec fn byte_piece(b: u8, k: nat, quiet: bool) -> Seq<char> {
    if !quiet && b == 10 {
        seq![b as char] + number_mark(k + 1)
    } else {
        seq![b as char]
    }
}

/// What byte mode writes for exactly the bytes `s`: unless quiet, the mark of
/// line 1 comes first.
pub open spec fn byte_stream(s: Seq<u8>, quiet: bool) -> Seq<char>
    decreases s.len(),
{
    if s.len() == 0 {
        if quiet {
            Seq::empty()
        } else {
            number_mark(1)
        }
    } else {
        byte_stream(s.drop_last(), quiet) + byte_piece(s.last(), 1 + newline_count(s.drop_last()), quiet)
    }
}

/// What byte mode writes for an input of `bytes` when `n` bytes are asked for.
pub open spec fn byte_mode_output(bytes: Seq<u8>, n: nat, quiet: bool) -> Seq<char> {
    byte_stream(bytes.take(min(n, bytes.len()) as int), quiet)
}

/// The state of one bounded read of one input, fed a line or a byte at a time.
pub struct Head {
    mode: Mode,
    quiet: bool,
    taken: u64,
    line: u128,
}

impl Head {
    pub closed spec fn spec_mode(&self) -> Mode {
        self.mode
    }

    pub closed spec fn spec_quiet(&self) -> bool {
        self.quiet
    }

    /// How many lines or bytes have been taken so far.
    pub closed spec fn spec_taken(&self) -> nat {
        self.taken as nat
    }

    /// The number of the output line being written.
    pub closed spec fn spec_line(&self) -> nat {
        self.line as nat
    }

    pub closed spec fn wf(&self) -> bool {
        &&& self.taken <= self.mode.limit()
        &&& 1 <= self.line <= self.taken + 1
        &&& self.mode is Lines ==> self.line == self.taken + 1
    }

    /// A read that has taken nothing yet.
    pub fn new(mode: Mode, quiet: bool) -> (r: Head)
        ensures
            r.wf(),
            r.spec_mode() == mode,
            r.spec_quiet() == quiet,
            r.spec_taken() == 0,
            r.spec_line() == 1,
    {
        Head { mode, quiet, taken: 0, line: 1 }
    }

    /// What is written before any content: the mark of line 1 in byte mode
    /// unless quiet, else nothing.
    pub fn opening(&self) -> (r: Vec<char>)
        ensures
            r@ == (if self.spec_mode() is Bytes && !self.spec_quiet() {
                number_mark(1)
            } else {
                Seq::empty()
            }),
    {
        match self.mode {
            Mode::Bytes(_) => if self.quiet {
                Vec::new()
            } else {
                number_mark_chars(1)
            },
            Mode::Lines(_) => Vec::new(),
        }
    }

    /// Whether the read takes another line or byte.
    pub fn wants_more(&self) -> (r: bool)
        ensures
            r == (self.spec_taken() < self.spec_mode().limit()),
    {
        match self.mode {
            Mode::Lines(n) => self.taken < n,
            Mode::Bytes(n) => self.taken < n,
        }
    }

    /// Takes one line in line mode and returns what is written for it.
    pub fn take_line(&mut self, line: &Vec<char>) -> (r: Vec<char>)
        requires
            old(self).wf(),
            old(self).spec_mode() is Lines,
            old(self).spec_taken() < old(self).spec_mode().limit(),
        ensures
            final(self).wf(),
            final(self).spec_mode() == old(self).spec_mode(),
            final(self).spec_quiet() == old(self).spec_quiet(),
            final(self).spec_taken() == old(self).spec_taken() + 1,
            r@ == rendered_line(old(self).spec_taken() + 1, line@, old(self).spec_quiet()),
    {
        let mut r: Vec<char> = if self.quiet {
            Vec::new()
        } else {
            number_mark_chars(self.line)
        };
        let mut text = line.clone();
        r.append(&mut text);
        r.push('\n');
        self.taken = self.taken + 1;
        self.line = self.line + 1;
        proof {
            if old(self).spec_quiet() {
                assert(r@ =~= line@.push('\n'));
            } else {
                assert(r@ =~= number_mark(old(self).spec_taken() + 1) + line@.push('\n'));
            }
        }
        r
    }

    /// Takes one byte in byte mode and returns what is written for it.
    pub fn take_byte(&mut self, b: u8) -> (r: Vec<char>)
        requires
            old(self).wf(),
            old(self).spec_mode() is Bytes,
            old(self).spec_taken() < old(self).spec_mode().limit(),
        ensures
            final(self).wf(),
            final(self).spec_mode() == old(self).spec_mode(),
            final(self).spec_quiet() == old(self).spec_quiet(),
            final(self).spec_taken() == old(self).spec_taken() + 1,
            final(self).spec_line() == old(self).spec_line() + if b == 10 {
                1nat
            } else {
                0nat
            },
            r@ == byte_piece(b, old(self).spec_line(), old(self).spec_quiet()),
    {
        let mut r: Vec<char> = Vec::new();
        r.push(b as char);
        self.taken = self.taken + 1;
        if b == 10 {
            self.line = self.line + 1;
            if !self.quiet {
                let mut mark = number_mark_chars(self.line);
                r.append(&mut mark);
            }
        }
        proof {
            if !old(self).spec_quiet() && b == 10 {
                assert(r@ =~= seq![b as char] + number_mark(old(self).spec_line() + 1));
            } else {
                assert(r@ =~= seq![b as char]);
            }
        }
        r
    }
}


/// The characters of each line.
pub open spec fn lines_view(lines: Seq<Vec<char>>) -> Seq<Seq<char>> {
    lines.map_values(|l: Vec<char>| l@)
}

/// Line mode on an input already split into lines (newlines removed): the
/// first `count` lines, each numbered from 1 unless quiet.
pub fn head_lines(lines: &Vec<Vec<char>>, count: u64, quiet: bool) -> (r: Vec<char>)
    ensures
        r@ == line_mode_output(lines_view(lines@), count as nat, quiet),
{
    let ghost ls = lines_view(lines@);
    let mut h = Head::new(Mode::Lines(count), quiet);
    let mut out = h.opening();
    assert(out@ =~= line_pieces(ls, 0, quiet).flatten());
    let mut i: usize = 0;
    while i < lines.len() && h.wants_more()
        invariant
            ls == lines_view(lines@),
            h.wf(),
            h.spec_mode() == Mode::Lines(count),
            h.spec_quiet() == quiet,
            h.spec_taken() == i,
            i <= lines@.len(),
            out@ == line_pieces(ls, i as nat, quiet).flatten(),
        decreases lines@.len() - i,
    {
        let mut piece = h.take_line(&lines[i]);
        proof {
            let next = line_pieces(ls, (i + 1) as nat, quiet);
            assert(next =~= line_pieces(ls, i as nat, quiet).push(piece@));
            line_pieces(ls, i as nat, quiet).lemma_flatten_push(piece@);
        }
        out.append(&mut piece);
        i = i + 1;
    }
    out
}

proof fn lemma_take_step(s: Seq<u8>, i: int)
    requires
        0 <= i < s.len(),
    ensures
        s.take(i + 1).drop_last() == s.take(i),
        s.take(i + 1).last() == s[i],
        s.take(i + 1).len() == i + 1,
{
    assert(s.take(i + 1).drop_last() =~= s.take(i));
}

/// Byte mode on a whole input: the first `count` bytes, each written as the
/// character of the same code, with line marks unless quiet.
pub fn head_bytes(input: &Vec<u8>, count: u64, quiet: bool) -> (r: Vec<char>)
    ensures
        r@ == byte_mode_output(input@, count as nat, quiet),
{
    let mut h = Head::new(Mode::Bytes(count), quiet);
    let mut out = h.opening();
    assert(input@.take(0).len() == 0);
    let mut i: usize = 0;
    while i < input.len() && h.wants_more()
        invariant
            h.wf(),
            h.spec_mode() == Mode::Bytes(count),
            h.spec_quiet() == quiet,
            h.spec_taken() == i,
            i <= input@.len(),
            h.spec_line() == 1 + newline_count(input@.take(i as int)),
            out@ == byte_stream(input@.take(i as int), quiet),
        decreases input@.len() - i,
    {
        let b = input[i];
        let mut piece = h.take_byte(b);
        proof {
            lemma_take_step(input@, i as int);
        }
        out.append(&mut piece);
        i = i + 1;
    }
    out
}

} // verus!
