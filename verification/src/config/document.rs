//! A whole configuration document: its lines, its sections and its entries.

use vstd::prelude::*;
use vstd::slice::{slice_subrange, slice_to_vec};
use crate::config::line::{
    law_written_lines_read_back, line_meaning, parse_line, writable, written, Line, LineView,
    Value, ValueView,
};
use crate::config::scan::{same_bytes, DOT, NEWLINE};

verus! {

/// The lines of a text: the stretches between its line breaks. A text with
/// `n` line breaks has `n + 1` lines, the last of which may be empty.
pub open spec fn lines_of(text: Seq<u8>) -> Seq<Seq<u8>>
    decreases text.len(),
{
    if text.len() == 0 {
        seq![Seq::empty()]
    } else {
        let before = lines_of(text.drop_last());
        if text.last() == NEWLINE {
            before.push(Seq::empty())
        } else {
            before.update(before.len() - 1, before.last().push(text.last()))
        }
    }
}

/// The number of lists that are open where line `n` begins, or `None` where
/// a line above it is not a line of the syntax.
pub open spec fn depth_before(lines: Seq<Seq<u8>>, n: int) -> Option<nat>
    decreases n,
{
    if n <= 0 {
        Some(0nat)
    } else {
        match depth_before(lines, n - 1) {
            Some(depth) => match line_meaning(lines[n - 1], depth) {
                Some((_, open)) => Some(open),
                None => None,
            },
            None => None,
        }
    }
}

/// What line `n` says, read behind the lines above it, together with the
/// number of lists that are open where it ends.
pub open spec fn reading(lines: Seq<Seq<u8>>, n: int) -> Option<(LineView, nat)> {
    match depth_before(lines, n) {
        Some(depth) => line_meaning(lines[n], depth),
        None => None,
    }
}

/// Every line of `text` is a line of the syntax, and no list is left open at
/// the end.
pub open spec fn well_formed(text: Seq<u8>) -> bool {
    depth_before(lines_of(text), lines_of(text).len() as int) == Some(0nat)
}

/// Line `n` of `text` is where reading fails: it is the first that is not a
/// line of the syntax, or it is the last line and leaves a list open.
pub open spec fn first_flaw(text: Seq<u8>, n: int) -> bool {
    let lines = lines_of(text);
    &&& 0 <= n < lines.len()
    &&& depth_before(lines, n) is Some
    &&& match reading(lines, n) {
        Some((_, open)) => n == lines.len() - 1 && open > 0,
        None => true,
    }
}

/// The index of the line of `text` at which reading fails.
pub open spec fn flawed_line(text: Seq<u8>) -> int {
    choose|n: int| first_flaw(text, n)
}

/// What a line says that could be read.
pub open spec fn said(read: Option<(LineView, nat)>) -> LineView {
    match read {
        Some((line, _)) => line,
        None => LineView::Blank,
    }
}

/// What the lines of a well-formed `text` say, line by line.
pub open spec fn document_of(text: Seq<u8>) -> Seq<LineView> {
    Seq::new(lines_of(text).len(), |n: int| said(reading(lines_of(text), n)))
}

/// The section that line `n` belongs to: the one named by the nearest header
/// above it, or the unnamed section where there is none.
pub open spec fn section_at(lines: Seq<LineView>, n: int) -> Seq<u8>
    decreases n,
{
    if n <= 0 || n > lines.len() {
        Seq::empty()
    } else {
        match lines[n - 1] {
            LineView::Header { name } => name,
            _ => section_at(lines, n - 1),
        }
    }
}

/// The full name of the entry `key` of `section`: the name of the section,
/// a dot, and the key; the key alone in the unnamed section. An entry is
/// known by its full name, so that a dotted key reaches into the sections
/// below.
pub open spec fn full_name(section: Seq<u8>, key: Seq<u8>) -> Seq<u8> {
    if section.len() == 0 {
        key
    } else {
        section + seq![DOT] + key
    }
}

/// `name` lies below `section`: it is the name of the section, a dot, and
/// more.
pub open spec fn lies_below(name: Seq<u8>, section: Seq<u8>) -> bool {
    &&& name.len() > section.len()
    &&& name.subrange(0, section.len() as int) == section
    &&& name[section.len() as int] == DOT
}

/// Line `n` shows that there is a section `section`: it is a header that
/// names it or a section below it, or an entry that lies below it.
pub open spec fn declares_at(lines: Seq<LineView>, n: int, section: Seq<u8>) -> bool {
    match lines[n] {
        LineView::Header { name } => name == section || lies_below(name, section),
        LineView::Pair { key, .. } => lies_below(
            full_name(section_at(lines, n), key),
            section,
        ),
        _ => false,
    }
}

/// Some line shows that there is a section `section`.
pub open spec fn declares(lines: Seq<LineView>, section: Seq<u8>) -> bool {
    exists|n: int| 0 <= n < lines.len() && declares_at(lines, n, section)
}

/// Line `n` is the entry with the full name `name`.
pub open spec fn is_entry(lines: Seq<LineView>, n: int, name: Seq<u8>) -> bool {
    &&& 0 <= n < lines.len()
    &&& lines[n] is Pair
    &&& full_name(section_at(lines, n), lines[n]->key) == name
}

/// The first line at or after `from` that is the entry with the full name
/// `name`.
pub open spec fn entry_from(lines: Seq<LineView>, name: Seq<u8>, from: int) -> Option<int>
    decreases lines.len() - from,
{
    if from < 0 || from >= lines.len() {
        None
    } else if is_entry(lines, from, name) {
        Some(from)
    } else {
        entry_from(lines, name, from + 1)
    }
}

/// The value of `key` in `section`: that of the first entry of that full
/// name, if the document holds more than one.
pub open spec fn value_of(lines: Seq<LineView>, section: Seq<u8>, key: Seq<u8>) -> Option<
    ValueView,
> {
    match entry_from(lines, full_name(section, key), 0) {
        Some(n) => Some(lines[n]->value),
        None => None,
    }
}

/// The lines of a beginning of `text` are lines of `text` too, but for the
/// last, which is complete only where a line break follows.
proof fn lemma_lines_of_prefix(text: Seq<u8>, len: int)
    requires
        0 <= len <= text.len(),
    ensures
        lines_of(text.subrange(0, len)).len() >= 1,
        lines_of(text.subrange(0, len)).len() <= lines_of(text).len(),
        forall|n: int|
            0 <= n < lines_of(text.subrange(0, len)).len() - 1 ==> lines_of(text)[n] == lines_of(
                text.subrange(0, len),
            )[n],
        len < text.len() && text[len] == NEWLINE ==> {
            let part = lines_of(text.subrange(0, len));
            part.len() < lines_of(text).len() && lines_of(text)[part.len() - 1] == part.last()
        },
        len == text.len() ==> lines_of(text.subrange(0, len)) == lines_of(text),
    decreases text.len() - len,
{
    if len == text.len() {
        assert(text.subrange(0, len) =~= text);
        lemma_lines_nonempty(text);
    } else {
        let shorter = text.drop_last();
        assert(shorter.subrange(0, len) =~= text.subrange(0, len));
        lemma_lines_of_prefix(shorter, len);
    }
}

/// Behind a line that is not a line of the syntax nothing can be read.
proof fn lemma_flaw_stops_reading(lines: Seq<Seq<u8>>, n: int, later: int)
    requires
        depth_before(lines, n) is None,
        n <= later,
    ensures
        depth_before(lines, later) is None,
    decreases later - n,
{
    if n < later {
        lemma_flaw_stops_reading(lines, n, later - 1);
    }
}

/// Reading fails at one line at most, and at none if the text is well
/// formed.
pub proof fn lemma_first_flaw(text: Seq<u8>, n: int)
    requires
        first_flaw(text, n),
    ensures
        !well_formed(text),
        flawed_line(text) == n,
{
    let lines = lines_of(text);
    let m = flawed_line(text);
    assert(first_flaw(text, m));
    if reading(lines, n) is None {
        assert(depth_before(lines, n + 1) is None);
        lemma_flaw_stops_reading(lines, n + 1, lines.len() as int);
        if n < m {
            lemma_flaw_stops_reading(lines, n + 1, m);
        }
    }
    if reading(lines, m) is None && m < n {
        assert(depth_before(lines, m + 1) is None);
        lemma_flaw_stops_reading(lines, m + 1, n);
    }
}

/// A text always has at least one line.
proof fn lemma_lines_nonempty(text: Seq<u8>)
    ensures
        lines_of(text).len() >= 1,
    decreases text.len(),
{
    if text.len() > 0 {
        lemma_lines_nonempty(text.drop_last());
    }
}

/// A parsed configuration document.
#[derive(Debug, PartialEq, Eq)]
pub struct Document {
    /// What each line says, in the order of the text.
    pub lines: Vec<Line>,
}

impl Clone for Document {
    fn clone(&self) -> (copy: Document)
        ensures
            copy@ == self@,
    {
        let mut lines: Vec<Line> = Vec::new();
        let mut n: usize = 0;
        while n < self.lines.len()
            invariant
                n <= self.lines@.len(),
                lines@.len() == n,
                forall|i: int| 0 <= i < n ==> lines@[i]@ == self.lines@[i]@,
            decreases self.lines@.len() - n,
        {
            lines.push(self.lines[n].clone());
            n += 1;
        }
        let copy = Document { lines };
        assert(copy@ =~= self@);
        copy
    }
}

impl View for Document {
    type V = Seq<LineView>;

    open spec fn view(&self) -> Seq<LineView> {
        self.lines@.map_values(|line: Line| line@)
    }
}

impl Document {
    /// Reads a document, which succeeds on the well-formed texts and on no
    /// others. Where reading fails, the result is the index of the line at
    /// which it fails, counted from zero: the first line that is not a line
    /// of the syntax, or the last line if it leaves a list open.
    pub fn parse(text: &[u8]) -> (read: Result<Document, usize>)
        ensures
            read is Ok <==> well_formed(text@),
            match read {
                Ok(document) => document@ == document_of(text@),
                Err(n) => n == flawed_line(text@) && first_flaw(text@, n as int) && n < text@.len(),
            },
    {
        let ghost whole = lines_of(text@);
        let mut lines: Vec<Line> = Vec::new();
        let mut depth: usize = 0;
        let mut start: usize = 0;
        let mut at: usize = 0;
        proof {
            assert(text@.subrange(0, 0) =~= Seq::<u8>::empty());
            assert(lines_of(text@.subrange(0, 0)).last() =~= text@.subrange(0, 0));
            lemma_lines_nonempty(text@);
        }
        while at < text.len()
            invariant
                whole == lines_of(text@),
                start <= at <= text@.len(),
                lines_of(text@.subrange(0, at as int)).len() == lines@.len() + 1,
                lines_of(text@.subrange(0, at as int)).last() == text@.subrange(
                    start as int,
                    at as int,
                ),
                depth_before(whole, lines@.len() as int) == Some(depth as nat),
                forall|n: int|
                    0 <= n < lines@.len() ==> (#[trigger] reading(whole, n)) is Some && said(
                        reading(whole, n),
                    ) == lines@[n]@,
                lines@.len() < whole.len(),
                lines@.len() <= start,
                depth > 0 ==> lines@.len() < start,
            decreases text@.len() - at,
        {
            let ghost part = text@.subrange(0, at as int);
            let ghost longer = text@.subrange(0, at + 1);
            proof {
                assert(longer.drop_last() =~= part);
                assert(longer.last() == text@[at as int]);
                lemma_lines_of_prefix(text@, at as int);
                lemma_lines_of_prefix(text@, at + 1);
            }
            if text[at] == NEWLINE {
                match parse_line(slice_subrange(text, start, at), depth) {
                    Some((line, open)) => {
                        lines.push(line);
                        depth = open;
                    },
                    None => {
                        proof {
                            lemma_first_flaw(text@, lines@.len() as int);
                        }
                        return Err(lines.len());
                    },
                }
                start = at + 1;
                proof {
                    assert(text@.subrange(start as int, start as int) =~= Seq::<u8>::empty());
                }
            } else {
                proof {
                    assert(text@.subrange(start as int, at as int).push(text@[at as int])
                        =~= text@.subrange(start as int, at + 1));
                }
            }
            at += 1;
        }
        proof {
            lemma_lines_of_prefix(text@, at as int);
        }
        match parse_line(slice_subrange(text, start, at), depth) {
            Some((line, open)) => {
                if open > 0 {
                    proof {
                        lemma_first_flaw(text@, lines@.len() as int);
                    }
                    return Err(lines.len());
                }
                lines.push(line);
            },
            None => {
                proof {
                    lemma_first_flaw(text@, lines@.len() as int);
                }
                return Err(lines.len());
            },
        }
        let document = Document { lines };
        proof {
            assert(document@ =~= document_of(text@));
        }
        Ok(document)
    }

    /// Whether the document shows that there is a section `section`: by a
    /// header that names it or a section below it, or by an entry that lies
    /// below it.
    pub fn has_section(&self, section: &[u8]) -> (found: bool)
        ensures
            found == declares(self@, section@),
    {
        let nothing: Vec<u8> = Vec::new();
        let mut current: &[u8] = nothing.as_slice();
        let mut n: usize = 0;
        while n < self.lines.len()
            invariant
                n <= self.lines@.len(),
                current@ == section_at(self@, n as int),
                forall|m: int| 0 <= m < n ==> !declares_at(self@, m, section@),
            decreases self.lines@.len() - n,
        {
            match &self.lines[n] {
                Line::Header { name } => {
                    if same_bytes(name.as_slice(), section) || below(name.as_slice(), section) {
                        assert(declares_at(self@, n as int, section@));
                        return true;
                    }
                    current = name.as_slice();
                },
                Line::Pair { key, .. } => {
                    let name = join(current, key.as_slice());
                    if below(name.as_slice(), section) {
                        assert(declares_at(self@, n as int, section@));
                        return true;
                    }
                },
                _ => {},
            }
            n += 1;
        }
        false
    }

    /// Looks up the value of `key` in `section`. The unnamed section, which
    /// holds the entries above the first header, has the empty name.
    pub fn lookup(&self, section: &[u8], key: &[u8]) -> (found: Option<&Value>)
        ensures
            match found {
                Some(value) => value_of(self@, section@, key@) == Some(value@),
                None => value_of(self@, section@, key@) is None,
            },
    {
        let wanted = join(section, key);
        let nothing: Vec<u8> = Vec::new();
        let mut current: &[u8] = nothing.as_slice();
        let mut n: usize = 0;
        while n < self.lines.len()
            invariant
                n <= self.lines@.len(),
                wanted@ == full_name(section@, key@),
                current@ == section_at(self@, n as int),
                entry_from(self@, wanted@, 0) == entry_from(self@, wanted@, n as int),
            decreases self.lines@.len() - n,
        {
            match &self.lines[n] {
                Line::Header { name } => {
                    current = name.as_slice();
                },
                Line::Pair { key: name, value } => {
                    let full = join(current, name.as_slice());
                    if same_bytes(full.as_slice(), wanted.as_slice()) {
                        return Some(value);
                    }
                },
                _ => {},
            }
            n += 1;
        }
        None
    }
}

/// Builds the full name of the entry `key` of `section`.
pub fn join(section: &[u8], key: &[u8]) -> (name: Vec<u8>)
    ensures
        name@ == full_name(section@, key@),
{
    if section.len() == 0 {
        return slice_to_vec(key);
    }
    let mut name = slice_to_vec(section);
    name.push(DOT);
    let mut n: usize = 0;
    while n < key.len()
        invariant
            n <= key@.len(),
            name@ == section@ + seq![DOT] + key@.subrange(0, n as int),
        decreases key@.len() - n,
    {
        name.push(key[n]);
        n += 1;
        assert(key@.subrange(0, n - 1).push(key@[n - 1]) =~= key@.subrange(0, n as int));
    }
    assert(key@.subrange(0, n as int) =~= key@);
    name
}

/// Whether `name` lies below `section`.
pub fn below(name: &[u8], section: &[u8]) -> (lies: bool)
    ensures
        lies == lies_below(name@, section@),
{
    name.len() > section.len() && name[section.len()] == DOT && same_bytes(
        slice_subrange(name, 0, section.len()),
        section,
    )
}

/// A text without a line break is a single line.
pub proof fn law_text_without_break_is_one_line(text: Seq<u8>)
    requires
        !text.contains(NEWLINE),
    ensures
        lines_of(text) == seq![text],
    decreases text.len(),
{
    if text.len() == 0 {
        assert(text =~= Seq::<u8>::empty());
    } else {
        let shorter = text.drop_last();
        if shorter.contains(NEWLINE) {
            let i = choose|i: int| 0 <= i < shorter.len() && shorter[i] == NEWLINE;
            assert(text[i] == NEWLINE);
        }
        law_text_without_break_is_one_line(shorter);
        assert(text[text.len() - 1] != NEWLINE);
        assert(shorter.push(text.last()) =~= text);
        assert(seq![shorter].update(0, text) =~= seq![text]);
    }
}

/// A line break separates: the lines of two texts joined by a line break are
/// the lines of the first followed by the lines of the second.
pub proof fn law_break_separates_lines(first: Seq<u8>, second: Seq<u8>)
    ensures
        lines_of(first + seq![NEWLINE] + second) == lines_of(first) + lines_of(second),
    decreases second.len(),
{
    let joined = first + seq![NEWLINE] + second;
    lemma_lines_nonempty(second);
    if second.len() == 0 {
        assert(joined.drop_last() =~= first);
    } else {
        let shorter = second.drop_last();
        assert(joined.drop_last() =~= first + seq![NEWLINE] + shorter);
        law_break_separates_lines(first, shorter);
        lemma_lines_nonempty(shorter);
    }
    assert(lines_of(joined) =~= lines_of(first) + lines_of(second));
}

/// The plain way to write a document: its lines in their plain written form,
/// with a line break between each two.
pub open spec fn written_document(lines: Seq<LineView>) -> Seq<u8>
    decreases lines.len(),
{
    if lines.len() == 0 {
        Seq::empty()
    } else if lines.len() == 1 {
        written(lines[0])
    } else {
        written_document(lines.drop_last()) + seq![NEWLINE] + written(lines.last())
    }
}

/// Where the lines above line `n` can all be written down and stand in
/// their plain written form, no list is open where line `n` begins.
proof fn lemma_written_lines_leave_nothing_open(lines: Seq<LineView>, n: int)
    requires
        0 <= n <= lines.len(),
        forall|m: int| 0 <= m < lines.len() ==> writable(#[trigger] lines[m]),
    ensures
        depth_before(lines.map_values(|line: LineView| written(line)), n) == Some(0nat),
    decreases n,
{
    if n > 0 {
        lemma_written_lines_leave_nothing_open(lines, n - 1);
        law_written_lines_read_back(lines[n - 1]);
    }
}

/// What is written can be read back: a document of lines that can be written
/// down, none of them with a line break in it, read in its plain written
/// form, is well formed and says line by line what was written.
pub proof fn law_written_documents_read_back(lines: Seq<LineView>)
    requires
        lines.len() > 0,
        forall|n: int| 0 <= n < lines.len() ==> writable(#[trigger] lines[n]),
        forall|n: int| 0 <= n < lines.len() ==> !written(#[trigger] lines[n]).contains(NEWLINE),
    ensures
        lines_of(written_document(lines)) == lines.map_values(|line: LineView| written(line)),
        well_formed(written_document(lines)),
        document_of(written_document(lines)) == lines,
    decreases lines.len(),
{
    let text = written_document(lines);
    let texts = lines.map_values(|line: LineView| written(line));
    if lines.len() == 1 {
        law_text_without_break_is_one_line(written(lines[0]));
        assert(lines_of(text) =~= texts);
    } else {
        let before = lines.drop_last();
        law_written_documents_read_back(before);
        law_break_separates_lines(written_document(before), written(lines.last()));
        law_text_without_break_is_one_line(written(lines.last()));
        assert(lines_of(text) =~= texts);
    }
    lemma_written_lines_leave_nothing_open(lines, lines.len() as int);
    assert forall|n: int| 0 <= n < lines.len() implies reading(texts, n) == Some(
        (lines[n], 0nat),
    ) by {
        lemma_written_lines_leave_nothing_open(lines, n);
        law_written_lines_read_back(lines[n]);
    }
    assert(document_of(text) =~= lines);
}

} // verus!
