use tde::{status_segments, SegmentKind, StatusbarConfig, StatusbarPosition};

#[test]
fn all_segments_shown() {
    let cfg = StatusbarConfig::default();
    let segs = status_segments(&cfg, "CPU 12%  ".to_string(), 2 * 1024 * 1024 + 5, 8 * 1024 * 1024 * 1024, "12:34:56");
    let texts: Vec<&str> = segs.iter().map(|s| s.text.as_str()).collect();
    assert_eq!(
        texts,
        vec![" TDE ", "\u{2502} ", "CPU 12%  ", "MEM 2/8192MB  ", "\u{2500}\u{2500}\u{2500}\u{2500}", " 12:34:56 "]
    );
    assert_eq!(segs[0].kind, SegmentKind::Brand);
    assert_eq!(segs[5].kind, SegmentKind::Clock);
}

#[test]
fn hidden_segments_are_left_out() {
    let cfg = StatusbarConfig { show_clock: false, show_cpu: false, show_mem: true, position: StatusbarPosition::Top };
    let segs = status_segments(&cfg, String::new(), 0, 1023, "00:00:00");
    let kinds: Vec<SegmentKind> = segs.iter().map(|s| s.kind).collect();
    assert_eq!(kinds, vec![SegmentKind::Brand, SegmentKind::Separator, SegmentKind::Memory, SegmentKind::Filler]);
    assert_eq!(segs[2].text, "MEM 0/0MB  ");
}
