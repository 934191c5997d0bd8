//! One line of a configuration document.
//!
//! A line is blank (possibly holding a comment), a section header
//! `[name]`, or a pair `key = value`. A value is a quoted text, in double or
//! single quotes, a bare word such as a number or a truth value, or a list
//! in square brackets. Blanks may surround every token, and a comment, from
//! `#` to the end of the line, may follow a header or a pair.
//!
//! A list is the one thing that may run over several lines, so a line is
//! read knowing how many lists are open where it begins, and says how many
//! it leaves open. A list is read for its extent only: its brackets must
//! balance, its texts must be closed, and nothing but values, commas, blanks
//! and comments may stand in it.
//!
//! Names, of sections and of keys alike, are made of letters, digits, `_`,
//! `-` and `.`, and of quoted parts, whose quotes are not part of the name.
//! There are no escape sequences: a text in double quotes that holds a
//! backslash is not accepted.

use vstd::prelude::*;
use vstd::slice::{slice_subrange, slice_to_vec};
use crate::config::scan::{
    is_bare_byte, is_blank, is_name_byte, lemma_run_end, lemma_run_end_unique, run_end, scan,
    ByteClass, BACKSLASH, CLOSE_BRACKET, COMMA, DOUBLE_QUOTE, EQUALS, HASH, OPEN_BRACKET,
    SINGLE_QUOTE, SPACE,
};

verus! {

/// How deep lists may be nested.
pub const MAX_DEPTH: usize = 64;

/// The value of a pair.
#[derive(Debug, PartialEq, Eq)]
pub enum Value {
    /// A text that stood in quotes; the quotes are not part of it.
    Text(Vec<u8>),
    /// A word that stood without quotes.
    Bare(Vec<u8>),
    /// A list; what it holds is not kept.
    List,
}

impl Clone for Value {
    fn clone(&self) -> (copy: Value)
        ensures
            copy@ == self@,
    {
        match self {
            Value::Text(text) => Value::Text(slice_to_vec(text.as_slice())),
            Value::Bare(word) => Value::Bare(slice_to_vec(word.as_slice())),
            Value::List => Value::List,
        }
    }
}

/// The mathematical content of a [`Value`].
pub enum ValueView {
    Text(Seq<u8>),
    Bare(Seq<u8>),
    List,
}

impl View for Value {
    type V = ValueView;

    open spec fn view(&self) -> ValueView {
        match self {
            Value::Text(text) => ValueView::Text(text@),
            Value::Bare(word) => ValueView::Bare(word@),
            Value::List => ValueView::List,
        }
    }
}

/// What one line says.
#[derive(Debug, PartialEq, Eq)]
pub enum Line {
    /// Nothing, or only a comment.
    Blank,
    /// The beginning of the section `name`.
    Header { name: Vec<u8> },
    /// The entry `key` of the current section.
    Pair { key: Vec<u8>, value: Value },
    /// More of a list that began on an earlier line.
    Continued,
}

impl Clone for Line {
    fn clone(&self) -> (copy: Line)
        ensures
            copy@ == self@,
    {
        match self {
            Line::Blank => Line::Blank,
            Line::Header { name } => Line::Header { name: slice_to_vec(name.as_slice()) },
            Line::Pair { key, value } => Line::Pair {
                key: slice_to_vec(key.as_slice()),
                value: value.clone(),
            },
            Line::Continued => Line::Continued,
        }
    }
}

/// The mathematical content of a [`Line`].
pub enum LineView {
    Blank,
    Header { name: Seq<u8> },
    Pair { key: Seq<u8>, value: ValueView },
    Continued,
}

impl View for Line {
    type V = LineView;

    open spec fn view(&self) -> LineView {
        match self {
            Line::Blank => LineView::Blank,
            Line::Header { name } => LineView::Header { name: name@ },
            Line::Pair { key, value } => LineView::Pair { key: key@, value: value@ },
            Line::Continued => LineView::Continued,
        }
    }
}

/// From `from` on the line holds nothing but blanks and, possibly, a comment.
pub open spec fn rest_is_quiet(line: Seq<u8>, from: int) -> bool {
    let at = run_end(line, from, ByteClass::Blank);
    at >= line.len() || line[at] == HASH
}

/// `byte` opens or closes a text.
pub open spec fn is_quote(byte: u8) -> bool {
    byte == DOUBLE_QUOTE || byte == SINGLE_QUOTE
}

/// `byte` may stand between the brackets of a list without being part of
/// a text or a list of its own: a blank, a comma, or a byte of a bare word.
pub open spec fn is_plain(byte: u8) -> bool {
    is_blank(byte) || byte == COMMA || is_bare_byte(byte)
}

/// How far the lists reach that are open at `at`, and how many of them are
/// still open there: `depth` lists are open at `at`, and `quote` is the
/// quote of the text that `at` stands in, if it stands in one.
///
/// The result is the position behind the bracket that closes the outermost
/// list, with no list left open, or the end of the line, with the number of
/// lists that the line leaves open. There is no result where a text is not
/// closed on the line, where a double-quoted text holds a backslash, where
/// lists are nested deeper than [`MAX_DEPTH`], or where a byte stands
/// between the values that is neither a blank nor a comma.
pub open spec fn list_extent(line: Seq<u8>, at: int, depth: nat, quote: Option<u8>) -> Option<
    (int, nat),
>
    decreases line.len() - at,
{
    if depth == 0 {
        Some((at, 0nat))
    } else if at < 0 || at >= line.len() {
        if quote is Some {
            None
        } else {
            Some((line.len() as int, depth))
        }
    } else {
        let byte = line[at];
        match quote {
            Some(open) => if byte == open {
                list_extent(line, at + 1, depth, None)
            } else if open == DOUBLE_QUOTE && byte == BACKSLASH {
                None
            } else {
                list_extent(line, at + 1, depth, quote)
            },
            None => if byte == HASH {
                Some((line.len() as int, depth))
            } else if byte == OPEN_BRACKET {
                if depth >= MAX_DEPTH {
                    None
                } else {
                    list_extent(line, at + 1, depth + 1, None)
                }
            } else if byte == CLOSE_BRACKET {
                list_extent(line, at + 1, (depth - 1) as nat, None)
            } else if is_quote(byte) {
                list_extent(line, at + 1, depth, Some(byte))
            } else if is_plain(byte) {
                list_extent(line, at + 1, depth, None)
            } else {
                None
            },
        }
    }
}

/// The value that begins at `at`, together with the position behind it and
/// the number of lists that it leaves open.
///
/// A quoted text runs to the next quote of the same kind, which must be
/// there. A bare word is the longest run of bare bytes, which must not be
/// empty. A list runs to the bracket that closes it, or to the end of the
/// line.
pub open spec fn value_at(line: Seq<u8>, at: int) -> Option<(ValueView, int, nat)> {
    if !(0 <= at < line.len()) {
        None
    } else if is_quote(line[at]) {
        let close = run_end(line, at + 1, ByteClass::Except(line[at]));
        let text = line.subrange(at + 1, close);
        if close < line.len() && (line[at] == SINGLE_QUOTE || !text.contains(BACKSLASH)) {
            Some((ValueView::Text(text), close + 1, 0nat))
        } else {
            None
        }
    } else if line[at] == OPEN_BRACKET {
        match list_extent(line, at + 1, 1, None) {
            Some((behind, open)) => Some((ValueView::List, behind, open)),
            None => None,
        }
    } else {
        let end = run_end(line, at, ByteClass::Bare);
        if end > at {
            Some((ValueView::Bare(line.subrange(at, end)), end, 0nat))
        } else {
            None
        }
    }
}

/// The name that begins at `at`, together with the position behind it:
/// `name` is what has been read of it so far, and `quote` is the quote of
/// the part that `at` stands in, if it stands in a quoted part.
///
/// A name is a run of name bytes and quoted parts. It ends at the first byte
/// outside a quoted part that is neither a name byte nor a quote. There is
/// no name where a quoted part is not closed on the line or where a part in
/// double quotes holds a backslash.
pub open spec fn name_at(line: Seq<u8>, at: int, quote: Option<u8>, name: Seq<u8>) -> Option<
    (Seq<u8>, int),
>
    decreases line.len() - at,
{
    if at < 0 || at >= line.len() {
        if quote is Some {
            None
        } else {
            Some((name, at))
        }
    } else {
        let byte = line[at];
        match quote {
            Some(open) => if byte == open {
                name_at(line, at + 1, None, name)
            } else if open == DOUBLE_QUOTE && byte == BACKSLASH {
                None
            } else {
                name_at(line, at + 1, quote, name.push(byte))
            },
            None => if is_quote(byte) {
                name_at(line, at + 1, Some(byte), name)
            } else if is_name_byte(byte) {
                name_at(line, at + 1, None, name.push(byte))
            } else {
                Some((name, at))
            },
        }
    }
}

/// The section header whose opening bracket stands at `open`.
pub open spec fn header_at(line: Seq<u8>, open: int) -> Option<LineView> {
    match name_at(line, run_end(line, open + 1, ByteClass::Blank), None, Seq::empty()) {
        Some((name, end)) => {
            let close = run_end(line, end, ByteClass::Blank);
            if name.len() > 0 && close < line.len() && line[close] == CLOSE_BRACKET
                && rest_is_quiet(line, close + 1) {
                Some(LineView::Header { name })
            } else {
                None
            }
        },
        None => None,
    }
}

/// The pair whose key begins at `start`, together with the number of lists
/// that its value leaves open.
pub open spec fn pair_at(line: Seq<u8>, start: int) -> Option<(LineView, nat)> {
    match name_at(line, start, None, Seq::empty()) {
        Some((key, end)) => {
            let sign = run_end(line, end, ByteClass::Blank);
            if key.len() > 0 && sign < line.len() && line[sign] == EQUALS {
                match value_at(line, run_end(line, sign + 1, ByteClass::Blank)) {
                    Some((value, behind, open)) => if open > 0 || rest_is_quiet(line, behind) {
                        Some((LineView::Pair { key, value }, open))
                    } else {
                        None
                    },
                    None => None,
                }
            } else {
                None
            }
        },
        None => None,
    }
}

/// What `line` says where `depth` lists are open at its beginning, together
/// with the number of lists that are open at its end; or `None` where it is
/// not a line of the syntax.
pub open spec fn line_meaning(line: Seq<u8>, depth: nat) -> Option<(LineView, nat)> {
    let at = run_end(line, 0, ByteClass::Blank);
    if depth > 0 {
        match list_extent(line, 0, depth, None) {
            Some((behind, open)) => if open > 0 || rest_is_quiet(line, behind) {
                Some((LineView::Continued, open))
            } else {
                None
            },
            None => None,
        }
    } else if at >= line.len() || line[at] == HASH {
        Some((LineView::Blank, 0nat))
    } else if line[at] == OPEN_BRACKET {
        match header_at(line, at) {
            Some(header) => Some((header, 0nat)),
            None => None,
        }
    } else {
        pair_at(line, at)
    }
}

/// The content of what reading a line gave.
pub open spec fn line_view(read: Option<(Line, usize)>) -> Option<(LineView, nat)> {
    match read {
        Some((line, open)) => Some((line@, open as nat)),
        None => None,
    }
}

/// Whether only blanks and possibly a comment follow `from`.
fn quiet_from(line: &[u8], from: usize) -> (quiet: bool)
    ensures
        quiet == rest_is_quiet(line@, from as int),
{
    let at = scan(line, from, ByteClass::Blank);
    at >= line.len() || line[at] == HASH
}

/// Copies the bytes between `start` and `end`.
fn copy_range(line: &[u8], start: usize, end: usize) -> (copy: Vec<u8>)
    requires
        start <= end <= line@.len(),
    ensures
        copy@ == line@.subrange(start as int, end as int),
{
    slice_to_vec(slice_subrange(line, start, end))
}

/// Whether `byte` opens or closes a text.
fn quote_byte(byte: u8) -> (quote: bool)
    ensures
        quote == is_quote(byte),
{
    byte == DOUBLE_QUOTE || byte == SINGLE_QUOTE
}

/// Finds the extent of the `depth` lists that are open at `start`.
fn scan_list(line: &[u8], start: usize, depth: usize) -> (found: Option<(usize, usize)>)
    requires
        start <= line@.len(),
    ensures
        match found {
            Some((behind, open)) => list_extent(line@, start as int, depth as nat, None) == Some(
                (behind as int, open as nat),
            ) && behind <= line@.len(),
            None => list_extent(line@, start as int, depth as nat, None) is None,
        },
{
    let mut at = start;
    let mut open = depth;
    let mut quote: Option<u8> = None;
    while open > 0 && at < line.len()
        invariant
            at <= line@.len(),
            list_extent(line@, start as int, depth as nat, None) == list_extent(
                line@,
                at as int,
                open as nat,
                quote,
            ),
        decreases line@.len() - at,
    {
        let byte = line[at];
        match quote {
            Some(opened) => {
                if byte == opened {
                    quote = None;
                } else if opened == DOUBLE_QUOTE && byte == BACKSLASH {
                    return None;
                }
            },
            None => {
                if byte == HASH {
                    return Some((line.len(), open));
                } else if byte == OPEN_BRACKET {
                    if open >= MAX_DEPTH {
                        return None;
                    }
                    open += 1;
                } else if byte == CLOSE_BRACKET {
                    open -= 1;
                } else if quote_byte(byte) {
                    quote = Some(byte);
                } else if !(ByteClass::Blank.has(byte) || byte == COMMA || ByteClass::Bare.has(
                    byte,
                )) {
                    return None;
                }
            },
        }
        at += 1;
    }
    if open == 0 {
        Some((at, 0))
    } else if quote.is_some() {
        None
    } else {
        Some((at, open))
    }
}

/// Reads the value that begins at `at`.
fn read_value(line: &[u8], at: usize) -> (found: Option<(Value, usize, usize)>)
    ensures
        match found {
            Some((value, behind, open)) => value_at(line@, at as int) == Some(
                (value@, behind as int, open as nat),
            ),
            None => value_at(line@, at as int) is None,
        },
{
    if at >= line.len() {
        return None;
    }
    let first = line[at];
    if quote_byte(first) {
        let close = scan(line, at + 1, ByteClass::Except(first));
        if close >= line.len() {
            return None;
        }
        if first == DOUBLE_QUOTE {
            let slash = scan(line, at + 1, ByteClass::Except(BACKSLASH));
            proof {
                let text = line@.subrange(at + 1, close as int);
                lemma_run_end(line@, at + 1, ByteClass::Except(BACKSLASH));
                if slash < close {
                    assert(text[slash - (at + 1)] == BACKSLASH);
                    assert(text.contains(BACKSLASH));
                } else {
                    assert forall|k: int| 0 <= k < text.len() implies text[k] != BACKSLASH by {
                        assert(text[k] == line@[at + 1 + k]);
                    }
                    assert(!text.contains(BACKSLASH));
                }
            }
            if slash < close {
                return None;
            }
        }
        Some((Value::Text(copy_range(line, at + 1, close)), close + 1, 0))
    } else if first == OPEN_BRACKET {
        match scan_list(line, at + 1, 1) {
            Some((behind, open)) => Some((Value::List, behind, open)),
            None => None,
        }
    } else {
        let end = scan(line, at, ByteClass::Bare);
        if end > at {
            Some((Value::Bare(copy_range(line, at, end)), end, 0))
        } else {
            None
        }
    }
}

/// Reads the name that begins at `start`.
fn read_name(line: &[u8], start: usize) -> (found: Option<(Vec<u8>, usize)>)
    requires
        start <= line@.len(),
    ensures
        match found {
            Some((name, end)) => name_at(line@, start as int, None, Seq::empty()) == Some(
                (name@, end as int),
            ) && end <= line@.len(),
            None => name_at(line@, start as int, None, Seq::empty()) is None,
        },
{
    let mut name: Vec<u8> = Vec::new();
    let mut quote: Option<u8> = None;
    let mut at = start;
    while at < line.len()
        invariant
            at <= line@.len(),
            name_at(line@, start as int, None, Seq::empty()) == name_at(
                line@,
                at as int,
                quote,
                name@,
            ),
        decreases line@.len() - at,
    {
        let byte = line[at];
        match quote {
            Some(open) => {
                if byte == open {
                    quote = None;
                } else if open == DOUBLE_QUOTE && byte == BACKSLASH {
                    return None;
                } else {
                    name.push(byte);
                }
            },
            None => {
                if quote_byte(byte) {
                    quote = Some(byte);
                } else if ByteClass::Name.has(byte) {
                    name.push(byte);
                } else {
                    return Some((name, at));
                }
            },
        }
        at += 1;
    }
    if quote.is_some() {
        None
    } else {
        Some((name, at))
    }
}

/// Reads the section header whose opening bracket stands at `open`.
fn read_header(line: &[u8], open: usize) -> (found: Option<Line>)
    requires
        open < line@.len(),
    ensures
        match found {
            Some(header) => header_at(line@, open as int) == Some(header@),
            None => header_at(line@, open as int) is None,
        },
{
    assert(open < line.len());
    let start = scan(line, open + 1, ByteClass::Blank);
    match read_name(line, start) {
        Some((name, end)) => {
            let close = scan(line, end, ByteClass::Blank);
            if name.len() > 0 && close < line.len() && line[close] == CLOSE_BRACKET && quiet_from(
                line,
                close + 1,
            ) {
                Some(Line::Header { name })
            } else {
                None
            }
        },
        None => None,
    }
}

/// Reads the pair whose key begins at `start`.
fn read_pair(line: &[u8], start: usize) -> (found: Option<(Line, usize)>)
    requires
        start <= line@.len(),
    ensures
        line_view(found) == pair_at(line@, start as int),
{
    match read_name(line, start) {
        Some((key, end)) => {
            let sign = scan(line, end, ByteClass::Blank);
            if key.len() > 0 && sign < line.len() && line[sign] == EQUALS {
                let at = scan(line, sign + 1, ByteClass::Blank);
                match read_value(line, at) {
                    Some((value, behind, open)) => {
                        if open > 0 || quiet_from(line, behind) {
                            Some((Line::Pair { key, value }, open))
                        } else {
                            None
                        }
                    },
                    None => None,
                }
            } else {
                None
            }
        },
        None => None,
    }
}

/// Reads one line, without its line break: `depth` lists are open where the
/// line begins, and the result says how many are open where it ends.
pub fn parse_line(line: &[u8], depth: usize) -> (found: Option<(Line, usize)>)
    ensures
        line_view(found) == line_meaning(line@, depth as nat),
{
    if depth > 0 {
        return match scan_list(line, 0, depth) {
            Some((behind, open)) => {
                if open > 0 || quiet_from(line, behind) {
                    Some((Line::Continued, open))
                } else {
                    None
                }
            },
            None => None,
        };
    }
    let at = scan(line, 0, ByteClass::Blank);
    if at >= line.len() || line[at] == HASH {
        Some((Line::Blank, 0))
    } else if line[at] == OPEN_BRACKET {
        match read_header(line, at) {
            Some(header) => Some((header, 0)),
            None => None,
        }
    } else {
        read_pair(line, at)
    }
}

/// The value can be written down: a text holds neither a double quote nor a
/// backslash, and a bare word is a non-empty run of bare bytes.
pub open spec fn writable_value(value: ValueView) -> bool {
    match value {
        ValueView::Text(text) => !text.contains(DOUBLE_QUOTE) && !text.contains(BACKSLASH),
        ValueView::Bare(word) => word.len() > 0 && forall|i: int|
            0 <= i < word.len() ==> is_bare_byte(#[trigger] word[i]),
        ValueView::List => false,
    }
}

/// The line can be written down on its own: names are non-empty runs of
/// name bytes, and the value of a pair can be written down.
pub open spec fn writable(line: LineView) -> bool {
    match line {
        LineView::Blank => true,
        LineView::Header { name } => name.len() > 0 && forall|i: int|
            0 <= i < name.len() ==> is_name_byte(#[trigger] name[i]),
        LineView::Pair { key, value } => {
            &&& key.len() > 0
            &&& forall|i: int| 0 <= i < key.len() ==> is_name_byte(#[trigger] key[i])
            &&& writable_value(value)
        },
        LineView::Continued => false,
    }
}

/// The plain way to write a value: a text in double quotes, a bare word as
/// it is.
pub open spec fn written_value(value: ValueView) -> Seq<u8> {
    match value {
        ValueView::Text(text) => seq![DOUBLE_QUOTE] + text + seq![DOUBLE_QUOTE],
        ValueView::Bare(word) => word,
        ValueView::List => seq![OPEN_BRACKET, CLOSE_BRACKET],
    }
}

/// The plain way to write a line: nothing, `[name]`, or `key = value`.
pub open spec fn written(line: LineView) -> Seq<u8> {
    match line {
        LineView::Blank => Seq::empty(),
        LineView::Header { name } => seq![OPEN_BRACKET] + name + seq![CLOSE_BRACKET],
        LineView::Pair { key, value } => key + seq![SPACE, EQUALS, SPACE] + written_value(value),
        LineView::Continued => Seq::empty(),
    }
}

/// A run of name bytes that ends before a byte that is neither a name byte
/// nor a quote, or at the end of the line, is a name.
proof fn lemma_bare_name(line: Seq<u8>, at: int, end: int, name: Seq<u8>)
    requires
        0 <= at <= end <= line.len(),
        forall|k: int| at <= k < end ==> is_name_byte(#[trigger] line[k]),
        end < line.len() ==> !is_name_byte(line[end]) && !is_quote(line[end]),
    ensures
        name_at(line, at, None, name) == Some((name + line.subrange(at, end), end)),
    decreases end - at,
{
    if at < end {
        lemma_bare_name(line, at + 1, end, name.push(line[at]));
        assert(name.push(line[at]) + line.subrange(at + 1, end) =~= name + line.subrange(at, end));
    } else {
        assert(name + line.subrange(at, end) =~= name);
    }
}

/// What is written can be read back: a line that can be written down, read
/// in its plain written form with no list open, says what was written and
/// leaves no list open.
pub proof fn law_written_lines_read_back(line: LineView)
    requires
        writable(line),
    ensures
        line_meaning(written(line), 0) == Some((line, 0nat)),
{
    let bytes = written(line);
    match line {
        LineView::Blank => {},
        LineView::Continued => {},
        LineView::Header { name } => {
            let end: int = name.len() as int + 1;
            lemma_run_end_unique(bytes, 0, ByteClass::Blank, 0);
            assert(is_name_byte(name[0]));
            lemma_run_end_unique(bytes, 1, ByteClass::Blank, 1);
            assert forall|k: int| 1 <= k < end implies is_name_byte(#[trigger] bytes[k]) by {
                assert(bytes[k] == name[k - 1]);
            }
            lemma_bare_name(bytes, 1, end, Seq::empty());
            assert(Seq::<u8>::empty() + bytes.subrange(1, end) =~= name);
            lemma_run_end_unique(bytes, end, ByteClass::Blank, end);
        },
        LineView::Pair { key, value } => {
            let sign: int = key.len() as int + 1;
            let at: int = key.len() as int + 3;
            assert(is_name_byte(key[0]));
            lemma_run_end_unique(bytes, 0, ByteClass::Blank, 0);
            assert forall|k: int| 0 <= k < key.len() implies is_name_byte(#[trigger] bytes[k]) by {
                assert(bytes[k] == key[k]);
            }
            lemma_bare_name(bytes, 0, key.len() as int, Seq::empty());
            assert(Seq::<u8>::empty() + bytes.subrange(0, key.len() as int) =~= key);
            lemma_run_end_unique(bytes, key.len() as int, ByteClass::Blank, sign);
            match value {
                ValueView::List => {},
                ValueView::Text(text) => {
                    let close: int = at + 1 + text.len() as int;
                    lemma_run_end_unique(bytes, sign + 1, ByteClass::Blank, at);
                    assert forall|k: int| at + 1 <= k < close implies ByteClass::Except(
                        DOUBLE_QUOTE,
                    ).contains(bytes[k]) by {
                        assert(bytes[k] == text[k - at - 1]);
                    }
                    lemma_run_end_unique(bytes, at + 1, ByteClass::Except(DOUBLE_QUOTE), close);
                    assert(bytes.subrange(at + 1, close) =~= text);
                },
                ValueView::Bare(word) => {
                    assert(is_bare_byte(word[0]));
                    assert(bytes[at] == word[0]);
                    lemma_run_end_unique(bytes, sign + 1, ByteClass::Blank, at);
                    assert forall|k: int| at <= k < bytes.len() implies ByteClass::Bare.contains(
                        bytes[k],
                    ) by {
                        assert(bytes[k] == word[k - at]);
                    }
                    lemma_run_end_unique(bytes, at, ByteClass::Bare, bytes.len() as int);
                    assert(bytes.subrange(at, bytes.len() as int) =~= word);
                },
            }
        },
    }
}

/// Plain bytes neither open nor close anything: the lists that are open
/// before a stretch of plain bytes reach as far as they do behind it.
proof fn lemma_plain_bytes_keep_the_depth(line: Seq<u8>, at: int, end: int, depth: nat)
    requires
        0 <= at <= end <= line.len(),
        depth > 0,
        forall|k: int| at <= k < end ==> is_plain(#[trigger] line[k]),
    ensures
        list_extent(line, at, depth, None) == list_extent(line, end, depth, None),
    decreases end - at,
{
    if at < end {
        assert(is_plain(line[at]));
        lemma_plain_bytes_keep_the_depth(line, at + 1, end, depth);
    }
}

/// A list of plain values is closed by its bracket: where nothing but blanks,
/// commas and bare words stands between an opening bracket and a closing
/// one, the value is a list that ends behind the closing bracket and leaves
/// nothing open, whatever follows.
pub proof fn law_bracket_closes_plain_list(inner: Seq<u8>, rest: Seq<u8>)
    requires
        forall|k: int| 0 <= k < inner.len() ==> is_plain(#[trigger] inner[k]),
    ensures
        value_at(seq![OPEN_BRACKET] + inner + seq![CLOSE_BRACKET] + rest, 0) == Some(
            (ValueView::List, inner.len() as int + 2, 0nat),
        ),
{
    let line = seq![OPEN_BRACKET] + inner + seq![CLOSE_BRACKET] + rest;
    let close: int = inner.len() as int + 1;
    assert forall|k: int| 1 <= k < close implies is_plain(#[trigger] line[k]) by {
        assert(line[k] == inner[k - 1]);
    }
    lemma_plain_bytes_keep_the_depth(line, 1, close, 1);
    assert(line[close] == CLOSE_BRACKET);
    assert(list_extent(line, close + 1, 0, None) == Some((close + 1, 0nat)));
}

/// A list that is not closed on its line goes on: where nothing but blanks,
/// commas and bare words follows an opening bracket, the value is a list
/// that reaches to the end of the line and leaves one list open.
pub proof fn law_open_list_goes_on(inner: Seq<u8>)
    requires
        forall|k: int| 0 <= k < inner.len() ==> is_plain(#[trigger] inner[k]),
    ensures
        value_at(seq![OPEN_BRACKET] + inner, 0) == Some(
            (ValueView::List, inner.len() as int + 1, 1nat),
        ),
{
    let line = seq![OPEN_BRACKET] + inner;
    assert forall|k: int| 1 <= k < line.len() implies is_plain(#[trigger] line[k]) by {
        assert(line[k] == inner[k - 1]);
    }
    lemma_plain_bytes_keep_the_depth(line, 1, line.len() as int, 1);
}

} // verus!
