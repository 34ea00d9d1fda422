use tde::{append_output, split_lines, MAX_OUTPUT_LINES};

#[test]
fn split_lines_follows_str_lines() {
    assert_eq!(split_lines("foo\r\nbar\n\nbaz\r"), vec!["foo", "bar", "", "baz\r"]);
    assert_eq!(split_lines(""), Vec::<String>::new());
    assert_eq!(split_lines("a\n"), vec!["a"]);
    assert_eq!(split_lines("\n"), vec![""]);
    assert_eq!(split_lines("a\r\r\nb"), vec!["a\r", "b"]);
    let text = "x\ny\r\n\r\nz";
    let expected: Vec<String> = text.lines().map(|s| s.to_string()).collect();
    assert_eq!(split_lines(text), expected);
}

#[test]
fn append_output_keeps_short_output_as_is() {
    let mut out = String::from("$ ls\r\n");
    append_output(&mut out, "file.txt\r\n");
    assert_eq!(out, "$ ls\r\nfile.txt\r\n");
}

#[test]
fn append_output_keeps_the_last_lines() {
    let mut out = String::new();
    let text: String = (0..250).map(|i| format!("line {i}\n")).collect();
    append_output(&mut out, &text);
    let lines: Vec<&str> = out.lines().collect();
    assert_eq!(lines.len(), MAX_OUTPUT_LINES);
    assert_eq!(lines[0], "line 50");
    assert_eq!(lines[199], "line 249");
    assert!(!out.ends_with('\n'));
}

#[test]
fn append_output_at_exactly_the_limit_keeps_everything() {
    let mut out = String::new();
    let text: String = (0..200).map(|i| format!("l{i}\r\n")).collect();
    append_output(&mut out, &text);
    assert_eq!(out, text);
    append_output(&mut out, "more");
    assert_eq!(out.lines().count(), 200);
    assert_eq!(out.lines().next(), Some("l1"));
    assert_eq!(out.lines().last(), Some("more"));
}
