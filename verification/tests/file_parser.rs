use ezgraph::file_parser::{
    check_file_size, detect_and_decode, extension_of, markdown_to_plain_text, parse_decoded,
    parse_file, parse_parts, plain_text_from_events, MdEvent, ParseError, MAX_FILE_SIZE,
};

#[test]
fn test_parse_plain_text() {
    let result = parse_file("/tmp/sample.txt", 11, b"Hello World").unwrap();
    assert_eq!(result.content, "Hello World");
    assert_eq!(result.file_type, "text");
    assert_eq!(result.file_name, "sample.txt");
    assert!(result.warning.is_none());
}

#[test]
fn test_parse_markdown() {
    let bytes = b"# Title\n\nSome **bold** text";
    let result = parse_file("/tmp/notes.md", bytes.len() as u64, bytes).unwrap();
    assert!(result.content.contains("Title"));
    assert!(result.content.contains("bold"));
    assert_eq!(result.file_type, "markdown");
}

#[test]
fn test_file_too_large() {
    let result = parse_file("/tmp/empty.txt", 0, b"");
    assert!(result.is_ok());
    assert_eq!(result.unwrap().content, "");
}

#[test]
fn oversized_file_is_refused_before_its_type_is_checked() {
    let too_big = MAX_FILE_SIZE as u64 + 1;
    assert!(matches!(parse_file("/tmp/big.txt", too_big, b"x"), Err(ParseError::FileTooLarge)));
    assert!(matches!(parse_file("/tmp/big.pdf", too_big, b"x"), Err(ParseError::FileTooLarge)));
    assert!(matches!(check_file_size(too_big), Err(ParseError::FileTooLarge)));
}

#[test]
fn file_of_exactly_the_limit_is_accepted() {
    assert_eq!(MAX_FILE_SIZE, 10 * 1024 * 1024);
    assert!(check_file_size(10 * 1024 * 1024).is_ok());
    assert!(parse_file("/tmp/limit.txt", 10 * 1024 * 1024, b"ok").is_ok());
}

#[test]
fn markdown_long_extension_and_upper_case() {
    let r = parse_file("docs/README.MARKDOWN", 7, b"# Hello").unwrap();
    assert_eq!(r.file_type, "markdown");
    assert_eq!(r.content, "Hello");
    assert_eq!(r.file_name, "README.MARKDOWN");
    let t = parse_file("a/B.TxT", 3, b" x ").unwrap();
    assert_eq!(t.file_type, "text");
    assert_eq!(t.content, " x ");
}

#[test]
fn unsupported_extension_is_reported_in_lowercase() {
    match parse_file("report.PDF", 3, b"abc") {
        Err(ParseError::UnsupportedType(ext)) => assert_eq!(ext, "pdf"),
        other => panic!("unexpected {:?}", other),
    }
    match parse_file("Makefile", 3, b"abc") {
        Err(ParseError::UnsupportedType(ext)) => assert_eq!(ext, ""),
        other => panic!("unexpected {:?}", other),
    }
}

#[test]
fn parse_decoded_uses_the_given_parts() {
    let r = parse_decoded(5, "n.md".to_string(), "md".to_string(), "*hi*".to_string()).unwrap();
    assert_eq!(r.content, "hi");
    assert_eq!(r.file_name, "n.md");
    assert_eq!(r.file_type, "markdown");
    assert!(matches!(
        parse_decoded(5, "n".to_string(), "MD".to_string(), "x".to_string()),
        Err(ParseError::UnsupportedType(e)) if e == "MD"
    ));
}

#[test]
fn utf8_bytes_decode_verbatim() {
    assert_eq!(detect_and_decode("héllo 中文".as_bytes()), "héllo 中文");
    assert_eq!(detect_and_decode(b""), "");
}

#[test]
fn gbk_bytes_decode_as_gbk() {
    // "中文" in GBK.
    assert_eq!(detect_and_decode(&[0xD6, 0xD0, 0xCE, 0xC4]), "中文");
}

#[test]
fn undecodable_bytes_fall_back_to_lossy_utf8() {
    assert_eq!(detect_and_decode(&[b'a', 0xFF]), "a\u{FFFD}");
}

#[test]
fn markdown_text_is_flattened_line_by_line() {
    assert_eq!(markdown_to_plain_text("# Title\n\nSome **bold** text"), "Title\nSome \nbold\n text");
}

#[test]
fn markdown_code_blocks_are_dropped() {
    assert_eq!(markdown_to_plain_text("before\n\n```\ncode here\n```\n\nafter"), "before\n\nafter");
    assert_eq!(markdown_to_plain_text("    indented code\n"), "");
}

#[test]
fn markdown_line_breaks_are_kept() {
    assert_eq!(markdown_to_plain_text("one\ntwo"), "one\n\ntwo");
}

#[test]
fn plain_text_from_events_follows_the_rules() {
    let events = vec![
        MdEvent::Text("  a".to_string()),
        MdEvent::CodeBlockStart,
        MdEvent::Text("hidden".to_string()),
        MdEvent::CodeBlockEnd,
        MdEvent::SoftBreak,
        MdEvent::Other,
        MdEvent::Text("b".to_string()),
        MdEvent::HardBreak,
    ];
    assert_eq!(plain_text_from_events(&events), "a\n\n\nb");
    assert_eq!(plain_text_from_events(&vec![]), "");
}

#[test]
fn parse_error_messages() {
    assert_eq!(ParseError::FileTooLarge.message(), "File too large: max 10MB allowed");
    assert_eq!(ParseError::UnsupportedType("pdf".to_string()).message(), "Unsupported file type: pdf");
    assert_eq!(ParseError::EncodingError("bad".to_string()).message(), "Encoding error: bad");
    let io = std::io::Error::new(std::io::ErrorKind::NotFound, "gone");
    assert_eq!(ParseError::IoError(io).message(), "IO error: gone");
}

#[test]
fn io_errors_convert_into_parse_errors() {
    let e: ParseError = std::io::Error::new(std::io::ErrorKind::Other, "boom").into();
    assert!(matches!(e, ParseError::IoError(_)));
}

#[test]
fn sizes_beyond_four_gibibytes_are_refused() {
    assert!(matches!(check_file_size(1u64 << 32), Err(ParseError::FileTooLarge)));
    assert!(matches!(check_file_size((1u64 << 32) + 1), Err(ParseError::FileTooLarge)));
    assert!(matches!(check_file_size(u64::MAX), Err(ParseError::FileTooLarge)));
    assert!(matches!(parse_file("x.txt", 1u64 << 32, b"x"), Err(ParseError::FileTooLarge)));
}

#[test]
fn extension_follows_the_last_dot() {
    assert_eq!(extension_of("a.b.c"), Some("c".to_string()));
    assert_eq!(extension_of("notes.md"), Some("md".to_string()));
    assert_eq!(extension_of("a."), Some("".to_string()));
    assert_eq!(extension_of(".bashrc"), None);
    assert_eq!(extension_of(".config.txt"), Some("txt".to_string()));
    assert_eq!(extension_of("Makefile"), None);
    assert_eq!(extension_of(""), None);
}

#[test]
fn file_name_is_the_last_part_of_the_path() {
    let r = parse_file("dir/sub/notes.txt", 2, b"hi").unwrap();
    assert_eq!(r.file_name, "notes.txt");
    let r = parse_file("notes.txt", 2, b"hi").unwrap();
    assert_eq!(r.file_name, "notes.txt");
    let r = parse_file("/abs/path/a.b.md", 2, b"hi").unwrap();
    assert_eq!(r.file_name, "a.b.md");
    assert_eq!(r.file_type, "markdown");
}

#[test]
fn a_path_without_a_file_name_is_unknown() {
    match parse_file("dir/..", 2, b"hi") {
        Err(ParseError::UnsupportedType(ext)) => assert_eq!(ext, ""),
        other => panic!("unexpected {:?}", other),
    }
    let r = parse_parts(2, None, Some("txt"), b"hi").unwrap();
    assert_eq!(r.file_name, "unknown");
    assert_eq!(r.file_type, "text");
}

#[test]
fn parse_parts_lowercases_the_extension() {
    let r = parse_parts(7, Some("Doc.MD"), Some("MD"), b"# Title").unwrap();
    assert_eq!(r.file_name, "Doc.MD");
    assert_eq!(r.file_type, "markdown");
    assert_eq!(r.content, "Title");
    match parse_parts(3, Some("x.PDF"), Some("PDF"), b"abc") {
        Err(ParseError::UnsupportedType(ext)) => assert_eq!(ext, "pdf"),
        other => panic!("unexpected {:?}", other),
    }
    match parse_parts(3, Some("Makefile"), None, b"abc") {
        Err(ParseError::UnsupportedType(ext)) => assert_eq!(ext, ""),
        other => panic!("unexpected {:?}", other),
    }
    assert!(matches!(
        parse_parts(MAX_FILE_SIZE as u64 + 1, Some("a.txt"), Some("txt"), b""),
        Err(ParseError::FileTooLarge)
    ));
}

#[test]
fn extension_case_does_not_change_the_import() {
    let upper = parse_file("d/README.MD", 7, b"# Title").unwrap();
    let lower = parse_file("d/readme.md", 7, b"# Title").unwrap();
    assert_eq!(upper.content, lower.content);
    assert_eq!(upper.file_type, lower.file_type);
    assert_eq!(upper.warning, lower.warning);
    assert_eq!(upper.file_name, "README.MD");
    assert_eq!(lower.file_name, "readme.md");
    let a = parse_file("d/a.txt", 3, b"abc").unwrap();
    let b = parse_file("d/a.TXT", 3, b"abc").unwrap();
    assert_eq!(a.content, b.content);
    assert_eq!(a.file_type, b.file_type);
}

#[test]
fn importing_twice_gives_the_same_result() {
    let first = parse_file("d/notes.md", 12, b"*a* and `b`").unwrap();
    let second = parse_file("d/notes.md", 12, b"*a* and `b`").unwrap();
    assert_eq!(first.content, second.content);
    assert_eq!(first.file_name, second.file_name);
    assert_eq!(first.file_type, second.file_type);
    assert_eq!(first.warning, second.warning);
}

#[test]
fn file_name_is_the_last_real_component() {
    let r = parse_file("/data/10:30.md", 2, b"hi").unwrap();
    assert_eq!(r.file_name, "10:30.md");
    assert_eq!(r.file_type, "markdown");
    let r = parse_file("d/n.TXT/./", 2, b"hi").unwrap();
    assert_eq!(r.file_name, "n.TXT");
    assert_eq!(r.file_type, "text");
    let r = parse_file("d//notes.txt//", 2, b"hi").unwrap();
    assert_eq!(r.file_name, "notes.txt");
    match parse_file("/", 2, b"hi") {
        Err(ParseError::UnsupportedType(ext)) => assert_eq!(ext, ""),
        other => panic!("unexpected {:?}", other),
    }
}

#[test]
fn extensions_differing_in_ascii_case_alone_import_alike() {
    let a = parse_file("d/a.\u{c9}MD", 1, b"x");
    let b = parse_file("d/b.\u{c9}md", 1, b"x");
    match (a, b) {
        (Err(ParseError::UnsupportedType(x)), Err(ParseError::UnsupportedType(y))) => {
            assert_eq!(x, y);
            assert_eq!(x, "\u{e9}md");
        }
        other => panic!("unexpected {:?}", other),
    }
    let c = parse_file("x/b.Md", 3, b"*a*").unwrap();
    let d = parse_file("y/b.mD", 3, b"*a*").unwrap();
    assert_eq!(c.content, d.content);
    assert_eq!(c.file_type, d.file_type);
}

#[test]
fn windows_style_paths_keep_their_extension() {
    let r = parse_file("C:\\docs\\a.md", 7, b"# Title").unwrap();
    assert_eq!(r.file_type, "markdown");
    assert_eq!(r.content, "Title");
    assert!(r.file_name == "a.md" || r.file_name == "C:\\docs\\a.md");
    match parse_file("C:\\docs\\a.PDF", 3, b"abc") {
        Err(ParseError::UnsupportedType(ext)) => assert_eq!(ext, "pdf"),
        other => panic!("unexpected {:?}", other),
    }
    let t = parse_file("docs\\notes.TXT", 2, b"hi").unwrap();
    assert_eq!(t.file_type, "text");
    assert!(t.file_name == "notes.TXT" || t.file_name == "docs\\notes.TXT");
}
