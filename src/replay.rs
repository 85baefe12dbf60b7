//! Replay sources: the normalised lines of a text, handed out in order.

use vstd::prelude::*;
use vstd::string::*;
use crate::text::{chars_vec, is_whitespace, is_ws, split_chars, split_on, string_of};

verus! {

/// A field separator inside a replay line: whitespace, a comma or a semicolon.
pub open spec fn is_sep(c: char) -> bool {
    is_ws(c) || c == ',' || c == ';'
}

/// The fields of `l` (runs of non-separators), joined by single spaces; built
/// character by character, a field's first character is preceded by a space
/// when some field came before it.
pub open spec fn normalize(l: Seq<char>) -> Seq<char>
    decreases l.len(),
{
    if l.len() == 0 {
        seq![]
    } else {
        let prev = normalize(l.drop_last());
        let c = l.last();
        if is_sep(c) {
            prev
        } else if prev.len() > 0 && is_sep(l[l.len() - 2]) {
            prev.push(' ').push(c)
        } else {
            prev.push(c)
        }
    }
}

/// `l` holds nothing but whitespace.
pub open spec fn blank(l: Seq<char>) -> bool {
    forall|i: int| 0 <= i < l.len() ==> is_ws(#[trigger] l[i])
}

/// The normalised non-blank lines among `ls`, in order.
pub open spec fn kept(ls: Seq<Seq<char>>) -> Seq<Seq<char>>
    decreases ls.len(),
{
    if ls.len() == 0 {
        seq![]
    } else {
        let prev = kept(ls.drop_last());
        if blank(ls.last()) {
            prev
        } else {
            prev.push(normalize(ls.last()))
        }
    }
}

/// The replay lines of a text: its lines (split at `\n`), blank ones dropped,
/// the rest normalised.
pub open spec fn replay_lines(content: Seq<char>) -> Seq<Seq<char>> {
    kept(split_on(content, '\n'))
}

fn is_sep_exec(c: char) -> (r: bool)
    ensures
        r == is_sep(c),
{
    is_whitespace(c) || c == ',' || c == ';'
}

/// The line with its fields joined by single spaces.
pub fn normalize_line(l: &Vec<char>) -> (r: Vec<char>)
    ensures
        r@ == normalize(l@),
{
    let mut out: Vec<char> = Vec::new();
    let mut i: usize = 0;
    while i < l.len()
        invariant
            i <= l.len(),
            out@ == normalize(l@.take(i as int)),
        decreases l.len() - i,
    {
        let c = l[i];
        proof {
            let t = l@.take(i + 1);
            assert(t.drop_last() =~= l@.take(i as int));
            if i > 0 {
                assert(t[t.len() - 2] == l@[i - 1]);
            }
        }
        if is_sep_exec(c) {
        } else if out.len() > 0 && i > 0 && is_sep_exec(l[i - 1]) {
            out.push(' ');
            out.push(c);
        } else {
            out.push(c);
        }
        i = i + 1;
    }
    proof {
        assert(l@.take(l.len() as int) =~= l@);
    }
    out
}

fn is_blank(l: &Vec<char>) -> (r: bool)
    ensures
        r == blank(l@),
{
    let mut i: usize = 0;
    while i < l.len()
        invariant
            i <= l.len(),
            forall|j: int| 0 <= j < i ==> is_ws(#[trigger] l@[j]),
        decreases l.len() - i,
    {
        if !is_whitespace(l[i]) {
            return false;
        }
        i = i + 1;
    }
    true
}

/// The replay lines of `content`.
pub fn replay_lines_of(content: &str) -> (r: Vec<String>)
    ensures
        r.deep_view() == replay_lines(content@),
{
    let v = chars_vec(content);
    let ls = split_chars(&v, '\n');
    let mut out: Vec<String> = Vec::new();
    let mut i: usize = 0;
    while i < ls.len()
        invariant
            i <= ls.len(),
            ls.deep_view() == split_on(content@, '\n'),
            out.deep_view() == kept(ls.deep_view().take(i as int)),
        decreases ls.len() - i,
    {
        let ghost before = out.deep_view();
        proof {
            assert(ls.deep_view().take(i + 1).drop_last() =~= ls.deep_view().take(i as int));
            assert(ls[i as int]@ == ls.deep_view()[i as int]);
        }
        if !is_blank(&ls[i]) {
            let n = normalize_line(&ls[i]);
            let s = string_of(&n);
            let ghost sv = s@;
            out.push(s);
            assert(out.deep_view() =~= before.push(sv));
        }
        i = i + 1;
    }
    proof {
        assert(ls.deep_view().take(ls.len() as int) =~= ls.deep_view());
    }
    out
}

/// A sequential reader over the replay lines of a text. A cursor moves
/// forward only; no line is handed out twice.
pub struct FileReader {
    lines: Vec<String>,
    pos: usize,
    path: String,
}

/// What a reader holds: its lines, its cursor and the path it was read from.
pub struct FileReaderView {
    pub lines: Seq<Seq<char>>,
    pub pos: int,
    pub path: Seq<char>,
}

impl View for FileReader {
    type V = FileReaderView;

    closed spec fn view(&self) -> FileReaderView {
        FileReaderView { lines: self.lines.deep_view(), pos: self.pos as int, path: self.path@ }
    }
}

/// The report of a text with no replay lines.
pub open spec fn empty_message(path: Seq<char>) -> Seq<char> {
    "file is empty: "@ + path
}

impl FileReader {
    #[verifier::type_invariant]
    spec fn cursor_in_range(self) -> bool {
        self.pos <= self.lines.len()
    }

    /// A reader over the replay lines of `content`, read from `path`; a text
    /// without any is an error.
    pub fn from_content(path: &str, content: &str) -> (r: Result<FileReader, String>)
        ensures
            replay_lines(content@).len() > 0 ==> r is Ok && r->Ok_0@ == (FileReaderView {
                lines: replay_lines(content@),
                pos: 0,
                path: path@,
            }),
            replay_lines(content@).len() == 0 ==> r is Err && r->Err_0@ == empty_message(path@),
    {
        let lines = replay_lines_of(content);
        if lines.len() == 0 {
            let mut msg = String::from_str("file is empty: ");
            msg.append(path);
            return Err(msg);
        }
        Ok(FileReader { lines, pos: 0, path: String::from_str(path) })
    }

    pub fn path(&self) -> (r: &String)
        ensures
            r@ == self@.path,
    {
        &self.path
    }

    /// The number of lines.
    pub fn total(&self) -> (r: usize)
        ensures
            r == self@.lines.len(),
    {
        self.lines.len()
    }

    /// The number of lines not yet handed out.
    pub fn remaining(&self) -> (r: usize)
        ensures
            r == self@.lines.len() - self@.pos,
            self@.pos <= self@.lines.len(),
    {
        proof {
            use_type_invariant(self);
        }
        self.lines.len() - self.pos
    }

    /// Whether every line has been handed out.
    pub fn done(&self) -> (r: bool)
        ensures
            r == (self@.pos >= self@.lines.len()),
            self@.pos <= self@.lines.len(),
    {
        proof {
            use_type_invariant(self);
        }
        self.pos >= self.lines.len()
    }

    /// The next line, moving the cursor past it; `None` once all are out.
    pub fn next_line(&mut self) -> (r: Option<String>)
        ensures
            final(self)@.lines == old(self)@.lines,
            final(self)@.path == old(self)@.path,
            old(self)@.pos < old(self)@.lines.len() ==> {
                &&& r is Some
                &&& r->Some_0@ == old(self)@.lines[old(self)@.pos]
                &&& final(self)@.pos == old(self)@.pos + 1
            },
            old(self)@.pos >= old(self)@.lines.len() ==> r is None && final(self)@.pos
                == old(self)@.pos,
    {
        proof {
            use_type_invariant(&*self);
        }
        if self.pos >= self.lines.len() {
            return None;
        }
        let line = self.lines[self.pos].clone();
        proof {
            assert(self.lines[self.pos as int]@ == self.lines.deep_view()[self.pos as int]);
        }
        self.pos = self.pos + 1;
        Some(line)
    }

    /// Up to `n` next lines (fewer at the end, none once all are out), moving
    /// the cursor past them.
    pub fn next_n(&mut self, n: usize) -> (r: Vec<String>)
        ensures
            final(self)@.lines == old(self)@.lines,
            final(self)@.path == old(self)@.path,
            ({
                let end = if old(self)@.pos + n < old(self)@.lines.len() {
                    old(self)@.pos + n
                } else {
                    old(self)@.lines.len() as int
                };
                &&& old(self)@.pos >= old(self)@.lines.len() ==> r@.len() == 0 && final(self)@.pos
                    == old(self)@.pos
                &&& old(self)@.pos < old(self)@.lines.len() ==> r.deep_view() == old(
                    self,
                )@.lines.subrange(old(self)@.pos, end) && final(self)@.pos == end
            }),
    {
        proof {
            use_type_invariant(&*self);
        }
        let mut out: Vec<String> = Vec::new();
        if self.pos >= self.lines.len() {
            return out;
        }
        let end = if n < self.lines.len() - self.pos {
            self.pos + n
        } else {
            self.lines.len()
        };
        let start = self.pos;
        let mut i: usize = start;
        while i < end
            invariant
                start <= i <= end <= self.lines.len(),
                out.deep_view() == self.lines.deep_view().subrange(start as int, i as int),
            decreases end - i,
        {
            let ghost before = out.deep_view();
            let line = self.lines[i].clone();
            proof {
                assert(self.lines[i as int]@ == self.lines.deep_view()[i as int]);
            }
            let ghost lv = line@;
            out.push(line);
            assert(out.deep_view() =~= before.push(lv));
            assert(out.deep_view() =~= self.lines.deep_view().subrange(start as int, i + 1));
            i = i + 1;
        }
        self.pos = end;
        out
    }
}

} // verus!
