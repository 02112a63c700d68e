//! The diagnostics substrate: a position index over the source text
//! and a renderer for leveled messages. [`Logger::new`] precomputes the
//! start offset of every line; [`Logger::render`] turns a [`Message`]
//! into the exact text a reporter prints: a colored header, the title,
//! a `path:line:col` locator, the source line, and a caret aligned
//! under the column. Rendering is purely observational: it never
//! influences parsing.

use vstd::prelude::*;
use vstd::string::StrSliceExecFns;
use vstd::string::StringExecFns;

verus! {

/// A half-open character range used by diagnostics.
#[derive(Eq, PartialEq, Structural, Clone, Copy, Debug)]
pub struct Loc {
    pub start: usize,
    pub end: usize,
}

impl View for Loc {
    type V = (int, int);

    open spec fn view(&self) -> (int, int) {
        (self.start as int, self.end as int)
    }
}

/// The severity of a message.
#[derive(Eq, PartialEq, Structural, Clone, Copy, Debug)]
pub enum MessageLevel {
    Info,
    Warning,
    Error,
}

/// A sub-hint attached to a message.
pub struct Hint {
    pub level: MessageLevel,
    pub loc: Loc,
    pub message: String,
}

/// Model of a [`Hint`].
pub ghost struct SpecHint {
    pub level: MessageLevel,
    pub loc: (int, int),
    pub message: Seq<char>,
}

impl View for Hint {
    type V = SpecHint;

    open spec fn view(&self) -> SpecHint {
        SpecHint { level: self.level, loc: self.loc@, message: self.message@ }
    }
}

/// One structured diagnostic: severity, position, title, hints.
pub struct Message {
    pub level: MessageLevel,
    pub pos: usize,
    pub title: String,
    pub hints: Vec<Hint>,
}

/// Model of a [`Message`].
pub ghost struct SpecMessage {
    pub level: MessageLevel,
    pub pos: int,
    pub title: Seq<char>,
    pub hints: Seq<SpecHint>,
}

impl View for Message {
    type V = SpecMessage;

    open spec fn view(&self) -> SpecMessage {
        SpecMessage {
            level: self.level,
            pos: self.pos as int,
            title: self.title@,
            hints: Seq::new(self.hints@.len(), |i: int| self.hints@[i]@),
        }
    }
}

// ---------------------------------------------------------------------------
// The line-start index.
// ---------------------------------------------------------------------------

/// The start offsets of every line among the first `n` characters:
/// offset 0, plus the offset just past each newline.
pub open spec fn spec_line_starts(s: Seq<char>, n: int) -> Seq<int>
    decreases n,
{
    if n <= 0 {
        seq![0int]
    } else if s[n - 1] == '\n' {
        spec_line_starts(s, n - 1).push(n)
    } else {
        spec_line_starts(s, n - 1)
    }
}

/// Line starts begin at zero, stay within the prefix, and strictly
/// increase.
pub proof fn lemma_line_starts(s: Seq<char>, n: int)
    requires
        0 <= n,
    ensures
        spec_line_starts(s, n).len() >= 1,
        spec_line_starts(s, n)[0] == 0,
        forall|k: int|
            0 <= k < spec_line_starts(s, n).len() ==> 0 <= #[trigger] spec_line_starts(s, n)[k]
                <= n,
        forall|k1: int, k2: int|
            0 <= k1 < k2 < spec_line_starts(s, n).len() ==> #[trigger] spec_line_starts(s, n)[k1]
                < #[trigger] spec_line_starts(s, n)[k2],
    decreases n,
{
    if n > 0 {
        lemma_line_starts(s, n - 1);
    }
}

/// The 0-based index of the line containing `pos`: the last line start
/// at or before it.
pub open spec fn spec_line_of(starts: Seq<int>, pos: int) -> int
    decreases starts.len(),
{
    if starts.len() <= 1 {
        0
    } else if starts.last() <= pos {
        starts.len() - 1
    } else {
        spec_line_of(starts.drop_last(), pos)
    }
}

/// The line index is in range and its start is at or before `pos`.
pub proof fn lemma_line_of(starts: Seq<int>, pos: int)
    requires
        starts.len() >= 1,
        starts[0] == 0,
        pos >= 0,
    ensures
        0 <= spec_line_of(starts, pos) < starts.len(),
        starts[spec_line_of(starts, pos)] <= pos,
    decreases starts.len(),
{
    if starts.len() > 1 && starts.last() > pos {
        lemma_line_of(starts.drop_last(), pos);
    }
}

/// The characters of the line at 0-based index `li`: from its start to
/// the newline before the next line start, or to the end of the text.
pub open spec fn spec_snippet(s: Seq<char>, starts: Seq<int>, li: int) -> Seq<char> {
    let ls = starts[li];
    let le = if li + 1 < starts.len() {
        starts[li + 1] - 1
    } else {
        s.len() as int
    };
    s.subrange(ls, le)
}

// ---------------------------------------------------------------------------
// Decimal rendering and padding.
// ---------------------------------------------------------------------------

/// One decimal digit as text.
pub open spec fn spec_digit(d: int) -> Seq<char> {
    if d == 0 {
        "0"@
    } else if d == 1 {
        "1"@
    } else if d == 2 {
        "2"@
    } else if d == 3 {
        "3"@
    } else if d == 4 {
        "4"@
    } else if d == 5 {
        "5"@
    } else if d == 6 {
        "6"@
    } else if d == 7 {
        "7"@
    } else if d == 8 {
        "8"@
    } else {
        "9"@
    }
}

/// A non-negative number in decimal, most significant digit first.
pub open spec fn spec_dec(n: int) -> Seq<char>
    decreases n,
{
    if n <= 9 {
        spec_digit(n)
    } else {
        spec_dec(n / 10) + spec_digit(n % 10)
    }
}

/// `n` in decimal.
pub fn usize_to_string(n: usize) -> (r: String)
    ensures
        r@ == spec_dec(n as int),
    decreases n,
{
    let d = n % 10;
    let ds: &str = if d == 0 {
        "0"
    } else if d == 1 {
        "1"
    } else if d == 2 {
        "2"
    } else if d == 3 {
        "3"
    } else if d == 4 {
        "4"
    } else if d == 5 {
        "5"
    } else if d == 6 {
        "6"
    } else if d == 7 {
        "7"
    } else if d == 8 {
        "8"
    } else {
        "9"
    };
    if n <= 9 {
        ds.to_owned()
    } else {
        let mut prefix = usize_to_string(n / 10);
        prefix.append(ds);
        prefix
    }
}

/// `n` spaces.
pub open spec fn spec_spaces(n: int) -> Seq<char>
    decreases n,
{
    if n <= 0 {
        Seq::empty()
    } else {
        spec_spaces(n - 1).push(' ')
    }
}

/// A run of `n` spaces.
pub fn spaces(n: usize) -> (r: String)
    ensures
        r@ == spec_spaces(n as int),
{
    let mut out = String::new();
    let mut i: usize = 0;
    while i < n
        invariant
            i <= n,
            out@ == spec_spaces(i as int),
        decreases n - i,
    {
        out.append(" ");
        proof {
            assert(spec_spaces(i + 1) == spec_spaces(i as int).push(' '));
            assert(out@ =~= spec_spaces(i as int) + " "@);
            reveal_strlit(" ");
            assert(spec_spaces(i as int) + " "@ =~= spec_spaces(i as int).push(' '));
        }
        i += 1;
    }
    out
}

// ---------------------------------------------------------------------------
// Rendering.
// ---------------------------------------------------------------------------

/// The colored severity header of a message.
pub open spec fn spec_level_prefix(l: MessageLevel) -> Seq<char> {
    match l {
        MessageLevel::Info => "\u{1b}[1;34minfo"@,
        MessageLevel::Warning => "\u{1b}[1;33mwarning"@,
        MessageLevel::Error => "\u{1b}[1;31merror"@,
    }
}

/// The full rendered text of one message against a path and a source:
/// header, title, locator, source line, and caret line.
pub open spec fn spec_render(path: Seq<char>, s: Seq<char>, m: SpecMessage) -> Seq<char> {
    let starts = spec_line_starts(s, s.len() as int);
    let li = spec_line_of(starts, m.pos);
    let line = li + 1;
    let col = m.pos - starts[li] + 1;
    spec_level_prefix(m.level) + "\u{1b}[0m: "@ + m.title + "\n-->  "@ + path + ":"@ + spec_dec(
        line,
    ) + ":"@ + spec_dec(col) + "\n"@ + spec_dec(line) + " | "@ + spec_snippet(s, starts, li)
        + "\n"@ + spec_spaces(spec_dec(line).len() as int) + "   "@ + spec_spaces(col - 1) + "^\n"@
}

/// The position index and renderer over one source text.
pub struct Logger<'a> {
    path: &'a String,
    input: &'a String,
    index: Vec<usize>,
    len: usize,
}

/// A sequence of offsets, as integers.
pub open spec fn usize_seq_view(v: Seq<usize>) -> Seq<int> {
    Seq::new(v.len(), |i: int| v[i] as int)
}

impl<'a> Logger<'a> {
    /// The source text this index describes.
    pub closed spec fn src(&self) -> Seq<char> {
        self.input@
    }

    /// The path shown in locators.
    pub closed spec fn path_view(&self) -> Seq<char> {
        self.path@
    }

    /// The start offsets of the source's lines.
    pub closed spec fn starts(&self) -> Seq<int> {
        usize_seq_view(self.index@)
    }

    /// The index matches the source.
    pub closed spec fn wf(&self) -> bool {
        &&& self.len == self.input@.len()
        &&& self.starts() == spec_line_starts(self.input@, self.input@.len() as int)
    }

    /// Builds the line index of the given source in one pass.
    pub fn new(path: &'a String, input: &'a String) -> (l: Self)
        ensures
            l.wf(),
            l.src() == input@,
            l.path_view() == path@,
    {
        let ghost s = input@;
        let n = input.as_str().unicode_len();
        let mut index: Vec<usize> = Vec::new();
        index.push(0);
        proof {
            assert(usize_seq_view(index@) =~= spec_line_starts(s, 0));
        }
        let mut i: usize = 0;
        while i < n
            invariant
                s == input@,
                n == s.len(),
                i <= n,
                usize_seq_view(index@) == spec_line_starts(s, i as int),
            decreases n - i,
        {
            let c = input.as_str().get_char(i);
            if c == '\n' {
                let ghost before = index@;
                index.push(i + 1);
                proof {
                    assert(usize_seq_view(index@) =~= usize_seq_view(before).push(i + 1));
                }
            }
            i += 1;
        }
        Logger { path, input, index, len: n }
    }

    /// The 1-based line number of the line containing `pos`.
    pub fn pos_to_line(&self, pos: usize) -> (line: usize)
        requires
            self.wf(),
        ensures
            1 <= line <= self.starts().len(),
            line - 1 == spec_line_of(self.starts(), pos as int),
            self.starts()[line - 1] <= pos as int,
    {
        proof {
            lemma_line_starts(self.src(), self.src().len() as int);
            lemma_line_of(self.starts(), pos as int);
        }
        let ghost starts = self.starts();
        let n = self.index.len();
        let mut k: usize = n - 1;
        proof {
            assert(starts.take(n as int) =~= starts);
        }
        loop
            invariant
                self.wf(),
                starts == self.starts(),
                k < starts.len(),
                starts.len() <= usize::MAX as int,
                spec_line_of(starts, pos as int) == spec_line_of(starts.take(k + 1), pos as int),
            decreases k,
        {
            proof {
                lemma_line_starts(self.src(), self.src().len() as int);
            }
            if self.index[k] <= pos {
                proof {
                    if k + 1 < starts.len() || k >= 1 {
                        assert(starts.take(k + 1).last() == starts[k as int]);
                    }
                }
                return k + 1;
            }
            proof {
                assert(starts[0] == 0);
                assert(starts[k as int] > pos as int);
                assert(k >= 1);
                assert(starts.take(k + 1).last() == starts[k as int]);
                assert(starts.take(k + 1).drop_last() =~= starts.take(k as int));
            }
            k -= 1;
        }
    }

    /// The full physical line with 1-based number `line`, without its
    /// trailing newline.
    pub fn line_snippet(&self, line: usize) -> (r: String)
        requires
            self.wf(),
            1 <= line <= self.starts().len(),
        ensures
            r@ == spec_snippet(self.src(), self.starts(), line - 1),
    {
        proof {
            lemma_line_starts(self.src(), self.src().len() as int);
            assert(self.starts()[0] == 0);
            if (line as int) < self.starts().len() {
                assert(self.starts()[line - 1] < self.starts()[line as int]);
                if line >= 2 {
                    assert(self.starts()[0] < self.starts()[line as int]);
                }
            }
        }
        let ls = self.index[line - 1];
        let le = if line < self.index.len() {
            self.index[line] - 1
        } else {
            self.len
        };
        self.input.as_str().substring_char(ls, le).to_owned()
    }

    /// The exact text a reporter prints for `m`: colored header, title,
    /// `path:line:col` locator, the source line, and a caret under the
    /// column of `m.pos`.
    pub fn render(&self, m: &Message) -> (out: String)
        requires
            self.wf(),
            m.pos <= self.src().len(),
            self.src().len() < usize::MAX as int,
        ensures
            out@ == spec_render(self.path_view(), self.src(), m@),
    {
        proof {
            lemma_line_starts(self.src(), self.src().len() as int);
            lemma_line_of(self.starts(), m.pos as int);
        }
        let line = self.pos_to_line(m.pos);
        let start = self.index[line - 1];
        let col = m.pos - start + 1;
        let mut out = match m.level {
            MessageLevel::Info => "\u{1b}[1;34minfo".to_owned(),
            MessageLevel::Warning => "\u{1b}[1;33mwarning".to_owned(),
            MessageLevel::Error => "\u{1b}[1;31merror".to_owned(),
        };
        out.append("\u{1b}[0m: ");
        out.append(m.title.as_str());
        out.append("\n-->  ");
        out.append(self.path.as_str());
        out.append(":");
        let line_text = usize_to_string(line);
        out.append(line_text.as_str());
        out.append(":");
        let col_text = usize_to_string(col);
        out.append(col_text.as_str());
        out.append("\n");
        out.append(line_text.as_str());
        out.append(" | ");
        let snippet = self.line_snippet(line);
        out.append(snippet.as_str());
        out.append("\n");
        let pad = spaces(line_text.as_str().unicode_len());
        out.append(pad.as_str());
        out.append("   ");
        let pad2 = spaces(col - 1);
        out.append(pad2.as_str());
        out.append("^\n");
        out
    }
}

} // verus!
