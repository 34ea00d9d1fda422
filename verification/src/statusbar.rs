//! The text of the statusbar: branding, CPU, memory, a filler and the clock.
use crate::config::StatusbarConfig;
use crate::text::{decimal, decimal_string};
use vstd::prelude::*;

verus! {

/// What a statusbar segment shows, which decides its style.
#[derive(Debug, Clone, Copy, PartialEq, Eq, Structural)]
pub enum SegmentKind {
    Brand,
    Separator,
    Cpu,
    Memory,
    Filler,
    Clock,
}

/// One piece of the statusbar, left to right.
pub struct StatusSegment {
    pub kind: SegmentKind,
    pub text: String,
}

/// A segment as the contracts see it.
pub type SegmentView = (SegmentKind, Seq<char>);

/// Whole mebibytes in `bytes`.
pub open spec fn mebibytes(bytes: u64) -> nat {
    (bytes / 1024 / 1024) as nat
}

/// The memory segment: "MEM used/totalMB" in whole mebibytes, then two spaces.
pub open spec fn memory_text(used: u64, total: u64) -> Seq<char> {
    seq!['M', 'E', 'M', ' '] + decimal(mebibytes(used)) + seq!['/'] + decimal(mebibytes(total))
        + seq!['M', 'B', ' ', ' ']
}

/// The segments of the statusbar with `cfg`, given the CPU segment's text, the used
/// and total memory in bytes, and the time of day: the brand, a separator, the CPU and
/// memory segments when they are shown, a filler of four lines, and the clock, padded by
/// a space on each side, when it is shown.
pub open spec fn segments_of(
    cfg: StatusbarConfig,
    cpu: Seq<char>,
    used: u64,
    total: u64,
    clock: Seq<char>,
) -> Seq<SegmentView> {
    let head = seq![
        (SegmentKind::Brand, seq![' ', 'T', 'D', 'E', ' ']),
        (SegmentKind::Separator, seq!['\u{2502}', ' ']),
    ];
    let with_cpu = if cfg.show_cpu { head.push((SegmentKind::Cpu, cpu)) } else { head };
    let with_mem = if cfg.show_mem {
        with_cpu.push((SegmentKind::Memory, memory_text(used, total)))
    } else {
        with_cpu
    };
    let with_filler = with_mem.push(
        (SegmentKind::Filler, seq!['\u{2500}', '\u{2500}', '\u{2500}', '\u{2500}']),
    );
    if cfg.show_clock {
        with_filler.push((SegmentKind::Clock, seq![' '] + clock + seq![' ']))
    } else {
        with_filler
    }
}

/// Whether some segment of `segments` is of kind `kind`.
pub open spec fn has_kind(segments: Seq<SegmentView>, kind: SegmentKind) -> bool {
    exists|i: int| 0 <= i < segments.len() && #[trigger] segments[i].0 == kind
}

/// The segments as the contracts see them.
pub open spec fn segment_views(v: Seq<StatusSegment>) -> Seq<SegmentView> {
    v.map_values(|s: StatusSegment| (s.kind, s.text@))
}

fn literal_segment(kind: SegmentKind, text: &str) -> (s: StatusSegment)
    ensures
        s.kind == kind,
        s.text@ == text@,
{
    StatusSegment { kind, text: String::from_str(text) }
}

/// The segments of the statusbar with `cfg`; `cpu_text` is the CPU segment, `used` and
/// `total` the memory in bytes, `clock` the time of day.
pub fn status_segments(cfg: &StatusbarConfig, cpu_text: String, used: u64, total: u64, clock: &str) -> (segments: Vec<StatusSegment>)
    ensures
        segment_views(segments@) == segments_of(*cfg, cpu_text@, used, total, clock@),
        has_kind(segment_views(segments@), SegmentKind::Cpu) == cfg.show_cpu,
        has_kind(segment_views(segments@), SegmentKind::Memory) == cfg.show_mem,
        has_kind(segment_views(segments@), SegmentKind::Clock) == cfg.show_clock,
        segments.len() == 3 + (if cfg.show_cpu { 1int } else { 0 }) + (if cfg.show_mem { 1int } else { 0 })
            + (if cfg.show_clock { 1int } else { 0 }),
{
    proof {
        reveal_strlit(" TDE ");
        reveal_strlit("\u{2502} ");
        reveal_strlit("MEM ");
        reveal_strlit("/");
        reveal_strlit("MB  ");
        reveal_strlit("\u{2500}\u{2500}\u{2500}\u{2500}");
        reveal_strlit(" ");
    }
    let ghost cpu = cpu_text@;
    let mut segments: Vec<StatusSegment> = Vec::new();
    segments.push(literal_segment(SegmentKind::Brand, " TDE "));
    segments.push(literal_segment(SegmentKind::Separator, "\u{2502} "));
    let ghost mut expected = seq![
        (SegmentKind::Brand, seq![' ', 'T', 'D', 'E', ' ']),
        (SegmentKind::Separator, seq!['\u{2502}', ' ']),
    ];
    assert(" TDE "@ =~= seq![' ', 'T', 'D', 'E', ' ']);
    assert("\u{2502} "@ =~= seq!['\u{2502}', ' ']);
    assert(segment_views(segments@) =~= expected);
    if cfg.show_cpu {
        let ghost prev = segments@;
        segments.push(StatusSegment { kind: SegmentKind::Cpu, text: cpu_text });
        proof {
            assert(segment_views(segments@) =~= segment_views(prev).push((SegmentKind::Cpu, cpu)));
            expected = expected.push((SegmentKind::Cpu, cpu));
        }
    }
    if cfg.show_mem {
        let mut text = String::from_str("MEM ");
        let used_mb = decimal_string(used / 1024 / 1024);
        let total_mb = decimal_string(total / 1024 / 1024);
        text.append(used_mb.as_str());
        text.append("/");
        text.append(total_mb.as_str());
        text.append("MB  ");
        assert(text@ =~= memory_text(used, total));
        let ghost prev = segments@;
        segments.push(StatusSegment { kind: SegmentKind::Memory, text });
        proof {
            assert(segment_views(segments@) =~= segment_views(prev).push((SegmentKind::Memory, memory_text(used, total))));
            expected = expected.push((SegmentKind::Memory, memory_text(used, total)));
        }
    }
    let ghost prev = segments@;
    segments.push(literal_segment(SegmentKind::Filler, "\u{2500}\u{2500}\u{2500}\u{2500}"));
    proof {
        let filler = (SegmentKind::Filler, seq!['\u{2500}', '\u{2500}', '\u{2500}', '\u{2500}']);
        assert("\u{2500}\u{2500}\u{2500}\u{2500}"@ =~= filler.1);
        assert(segment_views(segments@) =~= segment_views(prev).push(filler));
        expected = expected.push(filler);
    }
    if cfg.show_clock {
        let mut text = String::from_str(" ");
        text.append(clock);
        text.append(" ");
        assert(text@ =~= seq![' '] + clock@ + seq![' ']);
        let ghost prev = segments@;
        segments.push(StatusSegment { kind: SegmentKind::Clock, text });
        proof {
            assert(segment_views(segments@) =~= segment_views(prev).push((SegmentKind::Clock, seq![' '] + clock@ + seq![' '])));
            expected = expected.push((SegmentKind::Clock, seq![' '] + clock@ + seq![' ']));
        }
    }
    assert(expected =~= segments_of(*cfg, cpu_text@, used, total, clock@));
    assert(segment_views(segments@) =~= segments_of(*cfg, cpu_text@, used, total, clock@));
    proof {
        law_segments_follow_the_configuration(*cfg, cpu_text@, used, total, clock@);
    }
    segments
}

/// The statusbar shows the CPU, memory and clock segments exactly when the configuration
/// asks for them; the brand, the separator and the filler are always there, and nothing
/// else.
pub proof fn law_segments_follow_the_configuration(
    cfg: StatusbarConfig,
    cpu: Seq<char>,
    used: u64,
    total: u64,
    clock: Seq<char>,
)
    ensures
        has_kind(segments_of(cfg, cpu, used, total, clock), SegmentKind::Cpu) == cfg.show_cpu,
        has_kind(segments_of(cfg, cpu, used, total, clock), SegmentKind::Memory) == cfg.show_mem,
        has_kind(segments_of(cfg, cpu, used, total, clock), SegmentKind::Clock) == cfg.show_clock,
        has_kind(segments_of(cfg, cpu, used, total, clock), SegmentKind::Brand),
        has_kind(segments_of(cfg, cpu, used, total, clock), SegmentKind::Filler),
        segments_of(cfg, cpu, used, total, clock).len() == 3 + (if cfg.show_cpu { 1int } else { 0 })
            + (if cfg.show_mem { 1int } else { 0 }) + (if cfg.show_clock { 1int } else { 0 }),
{
    let v = segments_of(cfg, cpu, used, total, clock);
    let c: int = if cfg.show_cpu { 1 } else { 0 };
    let m: int = if cfg.show_mem { 1 } else { 0 };
    assert(v[0].0 == SegmentKind::Brand);
    assert(v[1].0 == SegmentKind::Separator);
    if cfg.show_cpu {
        assert(v[2].0 == SegmentKind::Cpu);
    }
    if cfg.show_mem {
        assert(v[2 + c].0 == SegmentKind::Memory);
    }
    assert(v[2 + c + m].0 == SegmentKind::Filler);
    if cfg.show_clock {
        assert(v[3 + c + m].0 == SegmentKind::Clock);
    }
    assert forall|i: int| 0 <= i < v.len() implies #[trigger] v[i].0 == (if i == 0 {
        SegmentKind::Brand
    } else if i == 1 {
        SegmentKind::Separator
    } else if i < 2 + c {
        SegmentKind::Cpu
    } else if i < 2 + c + m {
        SegmentKind::Memory
    } else if i == 2 + c + m {
        SegmentKind::Filler
    } else {
        SegmentKind::Clock
    }) by {}
}

} // verus!
