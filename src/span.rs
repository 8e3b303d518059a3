use vstd::prelude::*;

verus! {

/// Identifies the source file that a token or node comes from.
#[derive(Debug, Clone, Copy, PartialEq, Eq, Structural)]
pub struct FileId(pub u32);

/// A file-tagged source range: `start` and `end` are offsets into the file.
#[derive(Debug, Clone, Copy, PartialEq, Eq, Structural)]
pub struct FC {
    pub file: FileId,
    pub start: usize,
    pub end: usize,
}

/// The smallest range covering both `a` and `b`, tagged with `a`'s file.
pub open spec fn merge_fc(a: FC, b: FC) -> FC {
    FC {
        file: a.file,
        start: if a.start <= b.start { a.start } else { b.start },
        end: if a.end >= b.end { a.end } else { b.end },
    }
}

impl FC {
    /// The enclosing span of `self` and `other`.
    pub fn merge(self, other: FC) -> (r: FC)
        ensures
            r == merge_fc(self, other),
    {
        FC {
            file: self.file,
            start: if self.start <= other.start { self.start } else { other.start },
            end: if self.end >= other.end { self.end } else { other.end },
        }
    }
}

} // verus!
