use remote_flash::config::document::{below, join, Document};
use remote_flash::config::line::{parse_line, Line, Value, MAX_DEPTH};
use remote_flash::config::scan::{same_bytes, scan, ByteClass};

/// Reads a line at which no list is open and which leaves none open.
fn read(line: &[u8]) -> Option<Line> {
    match parse_line(line, 0) {
        Some((line, 0)) => Some(line),
        Some((_, open)) => panic!("the line leaves {} lists open", open),
        None => None,
    }
}

fn header(name: &str) -> Line {
    Line::Header { name: name.as_bytes().to_vec() }
}

fn text_pair(key: &str, text: &str) -> Line {
    Line::Pair { key: key.as_bytes().to_vec(), value: Value::Text(text.as_bytes().to_vec()) }
}

fn bare_pair(key: &str, word: &str) -> Line {
    Line::Pair { key: key.as_bytes().to_vec(), value: Value::Bare(word.as_bytes().to_vec()) }
}

#[test]
fn scan_stops_at_the_first_byte_outside_the_class() {
    assert_eq!(scan(b"  \t x", 0, ByteClass::Blank), 4);
    assert_eq!(scan(b"  \t x", 4, ByteClass::Blank), 4);
    assert_eq!(scan(b"   ", 1, ByteClass::Blank), 3);
    assert_eq!(scan(b"", 0, ByteClass::Blank), 0);
    assert_eq!(scan(b"build-std_2 =", 0, ByteClass::Name), 11);
    assert_eq!(scan(b"a.b]", 0, ByteClass::Name), 3);
    assert_eq!(scan(b"+1979-05-27T07:32 #", 0, ByteClass::Bare), 17);
    assert_eq!(scan(b"a+b", 0, ByteClass::Name), 1);
    assert_eq!(scan(b"abc\"def", 0, ByteClass::Except(b'"')), 3);
    assert_eq!(scan(b"abcdef", 2, ByteClass::Except(b'"')), 6);
}

#[test]
fn byte_classes_hold_what_they_say() {
    for byte in 0..=255u8 {
        let letter_or_digit = byte.is_ascii_alphanumeric();
        assert_eq!(ByteClass::Blank.has(byte), byte == b' ' || byte == b'\t' || byte == b'\r');
        assert_eq!(
            ByteClass::Name.has(byte),
            letter_or_digit || byte == b'_' || byte == b'-' || byte == b'.'
        );
        assert_eq!(
            ByteClass::Bare.has(byte),
            letter_or_digit || b"_-.+:".contains(&byte)
        );
        assert_eq!(ByteClass::Except(b'#').has(byte), byte != b'#');
    }
}

#[test]
fn same_bytes_compares_contents() {
    assert!(same_bytes(b"build", b"build"));
    assert!(same_bytes(b"", b""));
    assert!(!same_bytes(b"build", b"built"));
    assert!(!same_bytes(b"build", b"buil"));
    assert!(!same_bytes(b"", b"b"));
}

#[test]
fn blank_lines_and_comments() {
    assert_eq!(read(b""), Some(Line::Blank));
    assert_eq!(read(b"   \t\r"), Some(Line::Blank));
    assert_eq!(read(b"# a comment"), Some(Line::Blank));
    assert_eq!(read(b"   # [build] target = \"x\""), Some(Line::Blank));
}

#[test]
fn section_headers() {
    assert_eq!(read(b"[build]"), Some(header("build")));
    assert_eq!(read(b"  [ build ]  \r"), Some(header("build")));
    assert_eq!(read(b"[target.thumbv6m-none-eabi] # runner"), Some(header("target.thumbv6m-none-eabi")));
    assert_eq!(read(b"[\"build\"]"), Some(header("build")));
    assert_eq!(
        read(b"[target.'cfg(all(target_arch = \"arm\", target_os = \"none\"))'] # all"),
        Some(header("target.cfg(all(target_arch = \"arm\", target_os = \"none\"))"))
    );
    assert_eq!(read(b"[a.\"b]c\".d]"), Some(header("a.b]c.d")));
    assert_eq!(read(b"[build"), None);
    assert_eq!(read(b"[]"), None);
    assert_eq!(read(b"[ ]"), None);
    assert_eq!(read(b"[bu ild]"), None);
    assert_eq!(read(b"[build] x"), None);
    assert_eq!(read(b"[build]]"), None);
    assert_eq!(read(b"[[build]]"), None);
    assert_eq!(read(b"['build]"), None);
    assert_eq!(read(b"[\"bu\\ild\"]"), None);
    assert_eq!(read(b"['']"), None);
    assert_eq!(read(b"["), None);
}

#[test]
fn pairs_with_quoted_text() {
    assert_eq!(
        read(b"target = \"thumbv6m-none-eabi\""),
        Some(text_pair("target", "thumbv6m-none-eabi"))
    );
    assert_eq!(read(b"target=\"x\""), Some(text_pair("target", "x")));
    assert_eq!(read(b"\ttarget\t=\t'x y'  # why\r"), Some(text_pair("target", "x y")));
    assert_eq!(read(b"empty = \"\""), Some(text_pair("empty", "")));
    assert_eq!(read(b"hash = \"a # b\""), Some(text_pair("hash", "a # b")));
    assert_eq!(read(b"mixed = 'say \"hi\"'"), Some(text_pair("mixed", "say \"hi\"")));
    assert_eq!(read(b"path = 'c:\\dir'"), Some(text_pair("path", "c:\\dir")));
}

#[test]
fn keys_with_dots_and_quotes() {
    assert_eq!(read(b"build.target = \"x\""), Some(text_pair("build.target", "x")));
    assert_eq!(read(b"\"target\" = \"x\""), Some(text_pair("target", "x")));
    assert_eq!(read(b"build.'my target' = 1"), Some(bare_pair("build.my target", "1")));
}

#[test]
fn pairs_with_bare_words() {
    assert_eq!(read(b"jobs = 4"), Some(bare_pair("jobs", "4")));
    assert_eq!(read(b"offline = true # always"), Some(bare_pair("offline", "true")));
    assert_eq!(read(b"when = 1979-05-27T07:32:00"), Some(bare_pair("when", "1979-05-27T07:32:00")));
    assert_eq!(read(b"ratio = +1.5"), Some(bare_pair("ratio", "+1.5")));
}

#[test]
fn lines_that_are_not_of_the_syntax() {
    assert_eq!(read(b"target"), None);
    assert_eq!(read(b"target ="), None);
    assert_eq!(read(b"target =   # nothing"), None);
    assert_eq!(read(b"= \"x\""), None);
    assert_eq!(read(b"target = \"x"), None);
    assert_eq!(read(b"target = 'x"), None);
    assert_eq!(read(b"target = \"x\" y"), None);
    assert_eq!(read(b"target = x y"), None);
    assert_eq!(read(b"target = \"a\\nb\""), None);
    assert_eq!(read(b"target = \"a\\\"b\""), None);
    assert_eq!(read(b"\"target = \"x\""), None);
    assert_eq!(read(b"'' = \"x\""), None);
    assert_eq!(read(b"tar get = \"x\""), None);
    assert_eq!(read(b"t\xc3\xa4rget = 1"), None);
}

#[test]
fn document_keeps_every_line_in_order() {
    let document = Document::parse(b"# top\nroot = 1\n\n[build]\r\ntarget = \"t\"\r\n").unwrap();
    assert_eq!(
        document.lines,
        vec![
            Line::Blank,
            bare_pair("root", "1"),
            Line::Blank,
            header("build"),
            text_pair("target", "t"),
            Line::Blank,
        ]
    );
}

#[test]
fn document_without_a_final_line_break() {
    let document = Document::parse(b"[build]\ntarget = \"t\"").unwrap();
    assert_eq!(document.lines, vec![header("build"), text_pair("target", "t")]);
    assert_eq!(Document::parse(b"").unwrap().lines, vec![Line::Blank]);
    assert_eq!(Document::parse(b"\n").unwrap().lines, vec![Line::Blank, Line::Blank]);
}

#[test]
fn document_reports_the_first_flawed_line() {
    assert_eq!(Document::parse(b"oops"), Err(0));
    assert_eq!(Document::parse(b"[build]\n\noops\nworse\n"), Err(2));
    assert_eq!(Document::parse(b"[build]\ntarget = \"t\"\noops"), Err(2));
}

#[test]
fn sections_are_found_by_their_headers() {
    let document = Document::parse(b"root = 1\n[build]\n[target.x]\nrunner = 'r'\n").unwrap();
    assert!(document.has_section(b"build"));
    assert!(document.has_section(b"target.x"));
    assert!(document.has_section(b"target"));
    assert!(!document.has_section(b"targe"));
    assert!(!document.has_section(b"target.x.runner"));
    assert!(!document.has_section(b"root"));
    assert!(!document.has_section(b"x"));
}

#[test]
fn sections_are_found_by_what_lies_below_them() {
    let document = Document::parse(b"build.target = 't'\n[profile]\nrelease.lto = true\n").unwrap();
    assert!(document.has_section(b"build"));
    assert!(document.has_section(b"profile"));
    assert!(document.has_section(b"profile.release"));
    assert!(!document.has_section(b"build.target"));
    assert!(!document.has_section(b"release"));
    assert!(!document.has_section(b"profile.release.lto"));
}

#[test]
fn dotted_keys_reach_into_sections() {
    let document = Document::parse(
        b"build.target = 'dotted'\n[profile]\nrelease.lto = true\n[profile.release]\nlto = false\ndebug = 1\n",
    )
    .unwrap();
    assert_eq!(document.lookup(b"build", b"target"), Some(&Value::Text(b"dotted".to_vec())));
    assert_eq!(document.lookup(b"", b"build.target"), Some(&Value::Text(b"dotted".to_vec())));
    assert_eq!(document.lookup(b"profile.release", b"lto"), Some(&Value::Bare(b"true".to_vec())));
    assert_eq!(document.lookup(b"profile", b"release.lto"), Some(&Value::Bare(b"true".to_vec())));
    assert_eq!(document.lookup(b"profile.release", b"debug"), Some(&Value::Bare(b"1".to_vec())));
    assert_eq!(document.lookup(b"profile", b"lto"), None);
    assert_eq!(document.lookup(b"release", b"lto"), None);
}

#[test]
fn full_names_join_section_and_key() {
    assert_eq!(join(b"build", b"target"), b"build.target".to_vec());
    assert_eq!(join(b"", b"target"), b"target".to_vec());
    assert_eq!(join(b"a.b", b"c.d"), b"a.b.c.d".to_vec());
    assert_eq!(join(b"a", b""), b"a.".to_vec());
    assert!(below(b"build.target", b"build"));
    assert!(below(b"a.b.c", b"a.b"));
    assert!(below(b"a.b.c", b"a"));
    assert!(below(b".x", b""));
    assert!(!below(b"build", b"build"));
    assert!(!below(b"buildx.target", b"build"));
    assert!(!below(b"build", b"build.target"));
    assert!(!below(b"x", b""));
}

#[test]
fn lookup_is_by_section_and_key() {
    let document = Document::parse(
        b"target = \"root\"\n[other]\ntarget = \"other\"\n[build]\njobs = 4\ntarget = \"mine\"\ntarget = \"late\"\n[build]\ntarget = \"later\"\n",
    )
    .unwrap();
    assert_eq!(document.lookup(b"build", b"target"), Some(&Value::Text(b"mine".to_vec())));
    assert_eq!(document.lookup(b"other", b"target"), Some(&Value::Text(b"other".to_vec())));
    assert_eq!(document.lookup(b"", b"target"), Some(&Value::Text(b"root".to_vec())));
    assert_eq!(document.lookup(b"build", b"jobs"), Some(&Value::Bare(b"4".to_vec())));
    assert_eq!(document.lookup(b"build", b"missing"), None);
    assert_eq!(document.lookup(b"missing", b"target"), None);
    assert_eq!(document.lookup(b"other", b"jobs"), None);
}

#[test]
fn copy_of_a_document_says_the_same() {
    let document = Document::parse(b"# top\n[build]\ntarget = \"t\"\njobs = 4\n").unwrap();
    assert_eq!(document.clone(), document);
    for line in &document.lines {
        assert_eq!(line.clone(), *line);
    }
}

#[test]
fn plainly_written_lines_read_back() {
    assert_eq!(read(b"[build]"), Some(header("build")));
    assert_eq!(read(b"target = \"thumbv6m-none-eabi\""), Some(text_pair("target", "thumbv6m-none-eabi")));
    assert_eq!(read(b"jobs = 4"), Some(bare_pair("jobs", "4")));
    let document = Document::parse(b"[build]\ntarget = \"t\"\n\njobs = 4").unwrap();
    assert_eq!(
        document.lines,
        vec![header("build"), text_pair("target", "t"), Line::Blank, bare_pair("jobs", "4")]
    );
}

fn list_pair(key: &str) -> Line {
    Line::Pair { key: key.as_bytes().to_vec(), value: Value::List }
}

#[test]
fn lists_on_one_line() {
    assert_eq!(read(b"flags = []"), Some(list_pair("flags")));
    assert_eq!(read(b"flags = [\"-C\", \"link-arg=-Tlink.x\"]"), Some(list_pair("flags")));
    assert_eq!(read(b"flags = [ 1, 2, [3, 'four'], ] # nested"), Some(list_pair("flags")));
    assert_eq!(read(b"flags = [\"]\", '[', \"#\"]"), Some(list_pair("flags")));
    assert_eq!(read(b"flags = [1] 2"), None);
    assert_eq!(read(b"flags = [1]]"), None);
    assert_eq!(read(b"flags = [\"open]"), None);
    assert_eq!(read(b"flags = [\"a\\\"b\"]"), None);
    assert_eq!(read(b"flags = [a = 1]"), None);
    assert_eq!(read(b"flags = [{}]"), None);
}

#[test]
fn lists_over_several_lines() {
    assert_eq!(parse_line(b"flags = [", 0), Some((list_pair("flags"), 1)));
    assert_eq!(parse_line(b"flags = [ [1, 2], [ # more", 0), Some((list_pair("flags"), 2)));
    assert_eq!(parse_line(b"  \"-C\", \"link-arg=-Tlink.x\",", 1), Some((Line::Continued, 1)));
    assert_eq!(parse_line(b"", 3), Some((Line::Continued, 3)));
    assert_eq!(parse_line(b"# only a comment ]", 2), Some((Line::Continued, 2)));
    assert_eq!(parse_line(b"  3 ], [", 2), Some((Line::Continued, 2)));
    assert_eq!(parse_line(b"]", 1), Some((Line::Continued, 0)));
    assert_eq!(parse_line(b"] ] # done", 2), Some((Line::Continued, 0)));
    assert_eq!(parse_line(b"] x", 1), None);
    assert_eq!(parse_line(b"] ]", 1), None);
    assert_eq!(parse_line(b"target = \"t\"", 1), None);
    assert_eq!(parse_line(b"'open", 1), None);
}

#[test]
fn lists_nest_to_a_limit() {
    let mut line = b"deep = ".to_vec();
    line.extend(std::iter::repeat(b'[').take(MAX_DEPTH));
    assert_eq!(parse_line(&line, 0), Some((list_pair("deep"), MAX_DEPTH)));
    line.extend(std::iter::repeat(b']').take(MAX_DEPTH));
    assert_eq!(parse_line(&line, 0), Some((list_pair("deep"), 0)));

    let mut line = b"deep = ".to_vec();
    line.extend(std::iter::repeat(b'[').take(MAX_DEPTH + 1));
    assert_eq!(parse_line(&line, 0), None);
    assert_eq!(parse_line(b"[", MAX_DEPTH), None);
    assert_eq!(parse_line(b"]", MAX_DEPTH), Some((Line::Continued, MAX_DEPTH - 1)));
}

#[test]
fn document_with_a_list_over_several_lines() {
    let text = b"[target.'cfg(all(target_arch = \"arm\", target_os = \"none\"))']\nrustflags = [\n  \"-C\", \"link-arg=-Tlink.x\",\n]\n\n[build]\ntarget = \"thumbv6m-none-eabi\"\n";
    let document = Document::parse(text).unwrap();
    assert_eq!(
        document.lines,
        vec![
            header("target.cfg(all(target_arch = \"arm\", target_os = \"none\"))"),
            list_pair("rustflags"),
            Line::Continued,
            Line::Continued,
            Line::Blank,
            header("build"),
            text_pair("target", "thumbv6m-none-eabi"),
            Line::Blank,
        ]
    );
    assert!(document.has_section(b"build"));
    assert_eq!(
        document.lookup(b"build", b"target"),
        Some(&Value::Text(b"thumbv6m-none-eabi".to_vec()))
    );
    assert_eq!(
        document.lookup(b"target.cfg(all(target_arch = \"arm\", target_os = \"none\"))", b"rustflags"),
        Some(&Value::List)
    );
}

#[test]
fn what_stands_in_a_list_is_no_line_of_its_own() {
    // A header inside a list is a list within the list; a pair is nothing.
    assert_eq!(Document::parse(b"flags = [\n[build]\ntarget = 1\n]\n"), Err(2));
    let document = Document::parse(b"flags = [\n[build]\n]\n[other]\n").unwrap();
    assert!(!document.has_section(b"build"));
    assert!(document.has_section(b"other"));
    let document = Document::parse(b"[build]\nflags = [\n  'target',\n  # [other]\n]\n").unwrap();
    assert!(!document.has_section(b"other"));
    assert_eq!(document.lookup(b"build", b"target"), None);
}

#[test]
fn list_left_open_fails_at_the_last_line() {
    assert_eq!(Document::parse(b"flags = ["), Err(0));
    assert_eq!(Document::parse(b"flags = [\n"), Err(1));
    assert_eq!(Document::parse(b"[build]\nflags = [\n  1,\n  2,\n\n"), Err(5));
    assert_eq!(Document::parse(b"flags = [\n oops = 1\n]\n"), Err(1));
}
