//! Scanning runs of bytes. Every token of the configuration syntax is a
//! maximal run of bytes of one class, so this is all the lexing there is.

use vstd::prelude::*;

verus! {

/// A tab.
pub const TAB: u8 = 0x09;

/// A line break.
pub const NEWLINE: u8 = 0x0a;

/// A carriage return.
pub const RETURN: u8 = 0x0d;

/// A space.
pub const SPACE: u8 = 0x20;

/// `"`, which opens and closes a text.
pub const DOUBLE_QUOTE: u8 = 0x22;

/// `#`, which opens a comment.
pub const HASH: u8 = 0x23;

/// `'`, which opens and closes a text that is taken literally.
pub const SINGLE_QUOTE: u8 = 0x27;

/// `+`.
pub const PLUS: u8 = 0x2b;

/// `,`, which separates the values of a list.
pub const COMMA: u8 = 0x2c;

/// `-`.
pub const HYPHEN: u8 = 0x2d;

/// `.`, which joins the parts of a name.
pub const DOT: u8 = 0x2e;

/// The digit `0`.
pub const DIGIT_0: u8 = 0x30;

/// The digit `9`.
pub const DIGIT_9: u8 = 0x39;

/// `:`.
pub const COLON: u8 = 0x3a;

/// `=`, which stands between a key and its value.
pub const EQUALS: u8 = 0x3d;

/// The letter `A`.
pub const UPPER_A: u8 = 0x41;

/// The letter `Z`.
pub const UPPER_Z: u8 = 0x5a;

/// `[`, which opens a section header or a list.
pub const OPEN_BRACKET: u8 = 0x5b;

/// `\\`, which would open an escape sequence.
pub const BACKSLASH: u8 = 0x5c;

/// `]`, which closes a section header or a list.
pub const CLOSE_BRACKET: u8 = 0x5d;

/// `_`.
pub const UNDERSCORE: u8 = 0x5f;

/// The letter `a`.
pub const LOWER_A: u8 = 0x61;

/// The letter `z`.
pub const LOWER_Z: u8 = 0x7a;

/// A set of bytes that a token may be made of.
#[derive(Clone, Copy, Debug, PartialEq, Eq)]
pub enum ByteClass {
    /// Space, tab and carriage return.
    Blank,
    /// What a name may hold outside quotes: ASCII letters, digits, `_`, `-`
    /// and `.`.
    Name,
    /// What an unquoted value may hold: name bytes, `+` and `:`.
    Bare,
    /// Every byte but the given one.
    Except(u8),
}

/// Space, tab or carriage return.
pub open spec fn is_blank(byte: u8) -> bool {
    byte == SPACE || byte == TAB || byte == RETURN
}

/// An ASCII letter or digit, `_`, `-` or `.`.
pub open spec fn is_name_byte(byte: u8) -> bool {
    ||| LOWER_A <= byte <= LOWER_Z
    ||| UPPER_A <= byte <= UPPER_Z
    ||| DIGIT_0 <= byte <= DIGIT_9
    ||| byte == UNDERSCORE
    ||| byte == HYPHEN
    ||| byte == DOT
}

/// A name byte, `+` or `:`.
pub open spec fn is_bare_byte(byte: u8) -> bool {
    is_name_byte(byte) || byte == PLUS || byte == COLON
}

fn name_byte(byte: u8) -> (member: bool)
    ensures
        member == is_name_byte(byte),
{
    (LOWER_A <= byte && byte <= LOWER_Z) || (UPPER_A <= byte && byte <= UPPER_Z) || (DIGIT_0
        <= byte && byte <= DIGIT_9) || byte == UNDERSCORE || byte == HYPHEN || byte == DOT
}

impl ByteClass {
    /// Whether `byte` belongs to the class.
    pub open spec fn contains(self, byte: u8) -> bool {
        match self {
            ByteClass::Blank => is_blank(byte),
            ByteClass::Name => is_name_byte(byte),
            ByteClass::Bare => is_bare_byte(byte),
            ByteClass::Except(other) => byte != other,
        }
    }

    /// Whether `byte` belongs to the class.
    pub fn has(&self, byte: u8) -> (member: bool)
        ensures
            member == self.contains(byte),
    {
        match self {
            ByteClass::Blank => byte == SPACE || byte == TAB || byte == RETURN,
            ByteClass::Name => name_byte(byte),
            ByteClass::Bare => name_byte(byte) || byte == PLUS || byte == COLON,
            ByteClass::Except(other) => byte != *other,
        }
    }
}

/// Where the longest run of `class` bytes that begins at `start` ends: the
/// first position at or after `start` that holds no byte of the class.
pub open spec fn run_end(bytes: Seq<u8>, start: int, class: ByteClass) -> int
    decreases bytes.len() - start,
{
    if 0 <= start < bytes.len() && class.contains(bytes[start]) {
        run_end(bytes, start + 1, class)
    } else {
        start
    }
}

/// A run ends where its description says: everything between `start` and the
/// end belongs to the class, and the byte at the end, if there is one, does
/// not.
pub proof fn lemma_run_end(bytes: Seq<u8>, start: int, class: ByteClass)
    requires
        0 <= start <= bytes.len(),
    ensures
        start <= run_end(bytes, start, class) <= bytes.len(),
        forall|k: int| start <= k < run_end(bytes, start, class) ==> class.contains(bytes[k]),
        run_end(bytes, start, class) < bytes.len() ==> !class.contains(
            bytes[run_end(bytes, start, class)],
        ),
    decreases bytes.len() - start,
{
    if start < bytes.len() && class.contains(bytes[start]) {
        lemma_run_end(bytes, start + 1, class);
    }
}

/// A position is the end of the run from `start` as soon as it fits the
/// description: there is only one such position.
pub proof fn lemma_run_end_unique(bytes: Seq<u8>, start: int, class: ByteClass, end: int)
    requires
        0 <= start <= end <= bytes.len(),
        forall|k: int| start <= k < end ==> class.contains(bytes[k]),
        end < bytes.len() ==> !class.contains(bytes[end]),
    ensures
        run_end(bytes, start, class) == end,
    decreases end - start,
{
    if start < end {
        lemma_run_end_unique(bytes, start + 1, class, end);
    }
}

/// Finds the end of the run of `class` bytes that begins at `start`. Behind
/// the end of `bytes` there is nothing to scan, and the run ends where it
/// begins.
pub fn scan(bytes: &[u8], start: usize, class: ByteClass) -> (end: usize)
    ensures
        end == run_end(bytes@, start as int, class),
        start <= end,
        start <= bytes@.len() ==> end <= bytes@.len(),
{
    let mut end = start;
    while end < bytes.len() && class.has(bytes[end])
        invariant
            start <= end,
            start <= bytes@.len() ==> end <= bytes@.len(),
            run_end(bytes@, start as int, class) == run_end(bytes@, end as int, class),
        decreases bytes@.len() - end,
    {
        end += 1;
    }
    end
}

/// Whether two byte strings hold the same bytes.
pub fn same_bytes(left: &[u8], right: &[u8]) -> (same: bool)
    ensures
        same == (left@ == right@),
{
    if left.len() != right.len() {
        return false;
    }
    let mut i: usize = 0;
    while i < left.len()
        invariant
            i <= left.len(),
            left.len() == right.len(),
            forall|k: int| 0 <= k < i ==> left@[k] == right@[k],
        decreases left.len() - i,
    {
        if left[i] != right[i] {
            return false;
        }
        i += 1;
    }
    assert(left@ =~= right@);
    true
}

} // verus!
