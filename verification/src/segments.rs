//! Multiple non-destructive source ranges and how they are exported.
use vstd::prelude::*;

use crate::paths::{file_name_of, path_file_name};

verus! {

/// A half-open source range in milliseconds: `[start_ms, end_ms)`.
#[derive(Debug, Clone, Copy, PartialEq, Eq, Structural)]
pub struct ClipRange {
    pub start_ms: u64,
    pub end_ms: u64,
}

/// `a - b`, floored at zero (`u64::saturating_sub`).
pub open spec fn monus(a: u64, b: u64) -> u64 {
    if a >= b {
        (a - b) as u64
    } else {
        0
    }
}

impl ClipRange {
    /// The range between the two points, whichever order they come in.
    pub fn new(start_ms: u64, end_ms: u64) -> (r: Self)
        ensures
            r.start_ms == if start_ms <= end_ms { start_ms } else { end_ms },
            r.end_ms == if start_ms <= end_ms { end_ms } else { start_ms },
    {
        Self {
            start_ms: if start_ms <= end_ms { start_ms } else { end_ms },
            end_ms: if end_ms >= start_ms { end_ms } else { start_ms },
        }
    }

    pub fn duration_ms(self) -> (r: u64)
        ensures
            r == monus(self.end_ms, self.start_ms),
    {
        self.end_ms.saturating_sub(self.start_ms)
    }
}

/// A range made by `ClipRange::new` is ordered, does not depend on the order
/// of its end points, and lasts as long as they are apart.
pub proof fn law_range_is_normalized(a: u64, b: u64, r: ClipRange, s: ClipRange)
    requires
        r.start_ms == (if a <= b { a } else { b }),
        r.end_ms == (if a <= b { b } else { a }),
        s.start_ms == (if b <= a { b } else { a }),
        s.end_ms == (if b <= a { a } else { b }),
    ensures
        r.start_ms <= r.end_ms,
        r == s,
        monus(r.end_ms, r.start_ms) == if a <= b { b - a } else { a - b },
{
}

/// One item in the single-track sequence: a source file (by its path) with
/// its own non-destructive range.
#[derive(Debug, Clone, PartialEq, Eq)]
pub struct ClipSegment {
    pub source: String,
    pub range: ClipRange,
}

/// The mathematical value of a section: its source's path and its range.
pub struct SegmentView {
    pub source: Seq<char>,
    pub range: ClipRange,
}

impl View for ClipSegment {
    type V = SegmentView;

    open spec fn view(&self) -> SegmentView {
        SegmentView { source: self.source@, range: self.range }
    }
}

impl ClipSegment {
    pub fn new(source: &str, start_ms: u64, end_ms: u64) -> (r: Self)
        ensures
            r.source@ == source@,
            r.range.start_ms == if start_ms <= end_ms { start_ms } else { end_ms },
            r.range.end_ms == if start_ms <= end_ms { end_ms } else { start_ms },
    {
        Self { source: source.to_owned(), range: ClipRange::new(start_ms, end_ms) }
    }

    pub fn from_range(source: &str, range: ClipRange) -> (r: Self)
        ensures
            r.source@ == source@,
            r.range == range,
    {
        Self { source: source.to_owned(), range }
    }

    /// A copy of this section.
    pub fn duplicate(&self) -> (r: Self)
        ensures
            r == *self,
    {
        ClipSegment { source: self.source.clone(), range: self.range }
    }

    pub fn duration_ms(&self) -> (r: u64)
        ensures
            r == monus(self.range.end_ms, self.range.start_ms),
    {
        self.range.duration_ms()
    }

    /// The file name of the source, or the whole path where it has none.
    pub fn source_name(&self) -> (r: &str)
        ensures
            r@ == match path_file_name(self.source@) {
                Some(name) => name,
                None => self.source@,
            },
    {
        match file_name_of(self.source.as_str()) {
            Some(name) => name,
            None => self.source.as_str(),
        }
    }

    pub fn source_path(&self) -> (r: &str)
        ensures
            r@ == self.source@,
    {
        self.source.as_str()
    }
}

/// Whether multiple ranges become one continuous file or one file per range.
#[derive(Debug, Clone, Copy, PartialEq, Eq, Structural)]
pub enum SegmentExportMode {
    Join,
    Separate,
}

impl SegmentExportMode {
    pub fn get_all() -> (r: [Self; 2])
        ensures
            r@ == seq![SegmentExportMode::Join, SegmentExportMode::Separate],
    {
        [Self::Join, Self::Separate]
    }

    /// The mode at `index` in `get_all`, or `Join` past its end.
    pub fn from_index(index: u32) -> (r: Self)
        ensures
            r == (if index == 1 { SegmentExportMode::Separate } else { SegmentExportMode::Join }),
    {
        match index {
            1 => Self::Separate,
            _ => Self::Join,
        }
    }

    /// The untranslated label of this mode.
    pub fn display_msgid(self) -> (r: &'static str)
        ensures
            r@ == match self {
                SegmentExportMode::Join => "Join into one clip"@,
                SegmentExportMode::Separate => "Export individual clips"@,
            },
    {
        proof {
            reveal_strlit("Join into one clip");
            reveal_strlit("Export individual clips");
        }
        match self {
            Self::Join => "Join into one clip",
            Self::Separate => "Export individual clips",
        }
    }

}

} // verus!
