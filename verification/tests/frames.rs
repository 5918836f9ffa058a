use lsp_web::frame::{encode_frame, parse_content_length};
use lsp_web::text::is_white_space;

#[test]
fn test_parse_content_length() {
    assert_eq!(37, parse_content_length("Content-Length: 37").unwrap());
}

#[test]
fn content_length_with_line_end() {
    assert_eq!(Some(37), parse_content_length("Content-Length: 37\r\n"));
    assert_eq!(Some(37), parse_content_length("Content-Length: 37 \t\u{3000}\n"));
    assert_eq!(Some(0), parse_content_length("Content-Length: 0"));
    assert_eq!(Some(7), parse_content_length("Content-Length: 007"));
    assert_eq!(Some(7), parse_content_length("Content-Length: +7"));
}

#[test]
fn content_length_behind_other_words() {
    assert_eq!(Some(5), parse_content_length("\u{e9} X-Content-Length: 5"));
    assert_eq!(None, parse_content_length("Content-Length: Content-Length: 5"));
}

#[test]
fn content_length_that_is_none() {
    assert_eq!(None, parse_content_length(""));
    assert_eq!(None, parse_content_length("Content-Length:37"));
    assert_eq!(None, parse_content_length("content-length: 37"));
    assert_eq!(None, parse_content_length("Content-Length: "));
    assert_eq!(None, parse_content_length("Content-Length: \r\n"));
    assert_eq!(None, parse_content_length("Content-Length: +"));
    assert_eq!(None, parse_content_length("Content-Length: ++1"));
    assert_eq!(None, parse_content_length("Content-Length: -1"));
    assert_eq!(None, parse_content_length("Content-Length:  1"));
    assert_eq!(None, parse_content_length("Content-Length: 1 2"));
    assert_eq!(None, parse_content_length("Content-Length: 1x"));
    assert_eq!(None, parse_content_length("Content-Length: \u{661}"));
}

#[test]
fn content_length_at_the_limit() {
    let largest = format!("Content-Length: {}", usize::MAX);
    assert_eq!(Some(usize::MAX), parse_content_length(&largest));
    let behind = format!("Content-Length: {}", usize::MAX as u128 + 1);
    assert_eq!(None, parse_content_length(&behind));
    let longer = format!("Content-Length: {}0", usize::MAX);
    assert_eq!(None, parse_content_length(&longer));
}

/// Reads the length as the standard library does.
fn with_std(line: &str) -> Option<usize> {
    let line = line.trim_end();
    let needle = "Content-Length: ";
    let mid = line.find(needle)? + needle.len();
    let (_, num) = line.split_at(mid);
    num.parse().ok()
}

#[test]
fn content_length_agrees_with_std() {
    let pieces = ["", "Content-Length: ", "Content-", "1", "+", "-", " ", "\r\n", "\u{a0}", "é", "9"];
    for a in pieces {
        for b in pieces {
            for c in pieces {
                for d in pieces {
                    let line = format!("{}{}{}{}", a, b, c, d);
                    assert_eq!(with_std(&line), parse_content_length(&line), "{:?}", line);
                }
            }
        }
    }
}

#[test]
fn white_space_agrees_with_std() {
    for c in '\0'..=char::MAX {
        assert_eq!(c.is_whitespace(), is_white_space(c), "{:?}", c);
    }
}

#[test]
fn frame_counts_bytes() {
    assert_eq!("Content-Length: 2\r\n\r\n{}", encode_frame("{}"));
    assert_eq!("Content-Length: 0\r\n\r\n", encode_frame(""));
    assert_eq!("Content-Length: 4\r\n\r\n\"é\"", encode_frame("\"é\""));
    let long = "a".repeat(12345);
    assert_eq!(format!("Content-Length: 12345\r\n\r\n{}", long), encode_frame(&long));
}

#[test]
fn frame_reads_back() {
    let message = "{\"greeting\":\"gr\u{fc}\u{df} dich\"}";
    let stream = format!("{}{}", encode_frame(message), "rest");
    let header_end = stream.find('\n').unwrap() + 1;
    let (header, rest) = stream.split_at(header_end);
    let len = parse_content_length(header).unwrap();
    assert_eq!(message.len(), len);
    let (separator, rest) = rest.split_at(2);
    assert_eq!("\r\n", separator);
    assert_eq!((message, "rest"), rest.split_at(len));
}
