//! Rectangles of character cells, and their partition into consecutive
//! strips along one axis.

use vstd::arithmetic::mul::lemma_mul_nonnegative;
use vstd::prelude::*;

verus! {

/// The largest coordinate of the cell plane.
pub const COORD_MAX: u16 = 65535;

/// The axis along which a region is cut into strips.
#[derive(Clone, Copy, Debug, PartialEq, Eq, Structural)]
pub enum Axis {
    /// Strips side by side, left to right.
    Horizontal,
    /// Strips one above another, top to bottom.
    Vertical,
}

/// How much of its parent's length a strip asks for.
#[derive(Clone, Copy, Debug, PartialEq, Eq, Structural)]
pub enum Extent {
    /// A fixed number of cells.
    Length(u16),
    /// That percentage of the parent's length, rounded down.
    Percentage(u16),
    /// Nothing of its own: only what is left over, and only as the last strip.
    Rest,
}

/// A rectangle of cells: its top-left corner and its size.
#[derive(Clone, Copy, Debug, PartialEq, Eq, Structural)]
pub struct Region {
    pub x: u16,
    pub y: u16,
    pub width: u16,
    pub height: u16,
}

impl Region {
    /// The rectangle lies within the cell plane.
    pub open spec fn wf(self) -> bool {
        &&& self.x + self.width <= COORD_MAX
        &&& self.y + self.height <= COORD_MAX
    }

    /// Drawing into the rectangle can show something.
    pub open spec fn has_area(self) -> bool {
        self.width > 0 && self.height > 0
    }

    /// Every cell of `self` is a cell of `outer`.
    pub open spec fn within(self, outer: Region) -> bool {
        &&& outer.x <= self.x
        &&& self.x + self.width <= outer.x + outer.width
        &&& outer.y <= self.y
        &&& self.y + self.height <= outer.y + outer.height
    }

    /// The rectangle left after taking `m` cells off each of the four sides,
    /// or an empty one at the same corner where the sides do not leave room.
    pub open spec fn shrunk(self, m: u16) -> Region {
        if self.width < 2 * m || self.height < 2 * m {
            Region { x: self.x, y: self.y, width: 0, height: 0 }
        } else {
            Region {
                x: (self.x + m) as u16,
                y: (self.y + m) as u16,
                width: (self.width - 2 * m) as u16,
                height: (self.height - 2 * m) as u16,
            }
        }
    }

    /// Takes a margin of `m` cells off each side.
    pub fn inner(self, m: u16) -> (r: Region)
        requires
            self.wf(),
        ensures
            r == self.shrunk(m),
            r.wf(),
            r.within(self),
    {
        let twice: u32 = 2 * (m as u32);
        if (self.width as u32) < twice || (self.height as u32) < twice {
            Region { x: self.x, y: self.y, width: 0, height: 0 }
        } else {
            Region {
                x: self.x + m,
                y: self.y + m,
                width: self.width - 2 * m,
                height: self.height - 2 * m,
            }
        }
    }

    /// The length of the rectangle along `axis`.
    pub open spec fn length(self, axis: Axis) -> int {
        match axis {
            Axis::Horizontal => self.width as int,
            Axis::Vertical => self.height as int,
        }
    }

    /// The coordinate at which the rectangle starts along `axis`.
    pub open spec fn start(self, axis: Axis) -> int {
        match axis {
            Axis::Horizontal => self.x as int,
            Axis::Vertical => self.y as int,
        }
    }

    /// The strip of `self` along `axis` from offset `lo` up to offset `hi`.
    pub open spec fn strip(self, axis: Axis, lo: int, hi: int) -> Region {
        match axis {
            Axis::Horizontal => Region {
                x: (self.x + lo) as u16,
                y: self.y,
                width: (hi - lo) as u16,
                height: self.height,
            },
            Axis::Vertical => Region {
                x: self.x,
                y: (self.y + lo) as u16,
                width: self.width,
                height: (hi - lo) as u16,
            },
        }
    }
}

/// The number of cells that `e` asks for out of `total`.
pub open spec fn requested(e: Extent, total: int) -> int {
    match e {
        Extent::Length(l) => l as int,
        Extent::Percentage(p) => total * (p as int) / 100,
        Extent::Rest => 0,
    }
}

/// The offset at which strip `i` starts: what the strips before it asked
/// for, but never past the end of the parent.
pub open spec fn cut(total: int, es: Seq<Extent>, i: nat) -> int
    decreases i,
{
    if i == 0 {
        0
    } else {
        let c = cut(total, es, (i - 1) as nat) + requested(es[i - 1], total);
        if c < total {
            c
        } else {
            total
        }
    }
}

/// The offset at which strip `i` ends: the last strip takes everything that
/// is left, which absorbs any rounding.
pub open spec fn cut_end(total: int, es: Seq<Extent>, i: nat) -> int {
    if i + 1 == es.len() {
        total
    } else {
        cut(total, es, i + 1)
    }
}

/// The strips that `es` cuts `area` into along `axis`, in order.
pub open spec fn pieces(area: Region, axis: Axis, es: Seq<Extent>) -> Seq<Region> {
    let total = area.length(axis);
    Seq::new(es.len(), |i: int| area.strip(axis, cut(total, es, i as nat), cut_end(total, es, i as nat)))
}

proof fn lemma_requested_nonnegative(e: Extent, total: int)
    requires
        total >= 0,
    ensures
        requested(e, total) >= 0,
{
    if let Extent::Percentage(p) = e {
        lemma_mul_nonnegative(total, p as int);
    }
}

proof fn lemma_cut_bounds(total: int, es: Seq<Extent>, i: nat)
    requires
        total >= 0,
        i <= es.len(),
    ensures
        0 <= cut(total, es, i) <= total,
        i > 0 ==> cut(total, es, (i - 1) as nat) <= cut(total, es, i),
    decreases i,
{
    if i > 0 {
        lemma_cut_bounds(total, es, (i - 1) as nat);
        lemma_requested_nonnegative(es[i - 1], total);
    }
}

/// The strips tile their parent: the first starts where the parent starts,
/// each starts where the one before it ends, the last ends where the parent
/// ends, and each lies within the parent.
pub proof fn lemma_pieces_tile(area: Region, axis: Axis, es: Seq<Extent>)
    requires
        area.wf(),
        es.len() >= 1,
    ensures
        pieces(area, axis, es).len() == es.len(),
        pieces(area, axis, es)[0].start(axis) == area.start(axis),
        forall|i: int|
            0 <= i < es.len() - 1 ==> #[trigger] pieces(area, axis, es)[i].start(axis)
                + pieces(area, axis, es)[i].length(axis) == pieces(area, axis, es)[i + 1].start(axis),
        pieces(area, axis, es)[es.len() - 1].start(axis) + pieces(area, axis, es)[es.len() - 1].length(
            axis,
        ) == area.start(axis) + area.length(axis),
        forall|i: int| 0 <= i < es.len() ==> (#[trigger] pieces(area, axis, es)[i]).within(area),
        forall|i: int| 0 <= i < es.len() ==> (#[trigger] pieces(area, axis, es)[i]).wf(),
{
    let total = area.length(axis);
    assert forall|i: int| 0 <= i < es.len() implies {
        let p = #[trigger] pieces(area, axis, es)[i];
        &&& p.start(axis) == area.start(axis) + cut(total, es, i as nat)
        &&& p.length(axis) == cut_end(total, es, i as nat) - cut(total, es, i as nat)
        &&& p.within(area)
        &&& p.wf()
    } by {
        lemma_cut_bounds(total, es, i as nat);
        lemma_cut_bounds(total, es, (i + 1) as nat);
    }
}

fn requested_exec(e: Extent, total: u32) -> (r: u32)
    requires
        total <= COORD_MAX,
    ensures
        r == requested(e, total as int),
{
    match e {
        Extent::Length(l) => l as u32,
        Extent::Percentage(p) => {
            assert((total as int) * (p as int) <= 65535 * 65535) by (nonlinear_arith)
                requires
                    total <= 65535,
                    p <= 65535,
            ;
            total * (p as u32) / 100
        },
        Extent::Rest => 0,
    }
}

/// Cuts `area` along `axis` into one strip per extent, in order. Each strip
/// but the last gets what its extent asks for, as far as the parent reaches;
/// the last gets whatever is left.
pub fn split(area: Region, axis: Axis, extents: &[Extent]) -> (r: Vec<Region>)
    requires
        area.wf(),
    ensures
        r@ == pieces(area, axis, extents@),
{
    let total: u32 = match axis {
        Axis::Horizontal => area.width as u32,
        Axis::Vertical => area.height as u32,
    };
    let n = extents.len();
    let mut out: Vec<Region> = Vec::new();
    let mut start: u32 = 0;
    let mut i: usize = 0;
    while i < n
        invariant
            n == extents@.len(),
            0 <= i <= n,
            area.wf(),
            total as int == area.length(axis),
            start as int == cut(total as int, extents@, i as nat),
            out@ == pieces(area, axis, extents@).subrange(0, i as int),
        decreases n - i,
    {
        proof {
            lemma_cut_bounds(total as int, extents@, i as nat);
            lemma_cut_bounds(total as int, extents@, (i + 1) as nat);
        }
        let want = requested_exec(extents[i], total);
        let sum: u64 = start as u64 + want as u64;
        let next: u32 = if sum < total as u64 {
            sum as u32
        } else {
            total
        };
        let end: u32 = if i + 1 == n {
            total
        } else {
            next
        };
        let piece = match axis {
            Axis::Horizontal => Region {
                x: area.x + start as u16,
                y: area.y,
                width: (end - start) as u16,
                height: area.height,
            },
            Axis::Vertical => Region {
                x: area.x,
                y: area.y + start as u16,
                width: area.width,
                height: (end - start) as u16,
            },
        };
        out.push(piece);
        start = next;
        i = i + 1;
        assert(out@ =~= pieces(area, axis, extents@).subrange(0, i as int));
    }
    assert(out@ =~= pieces(area, axis, extents@));
    out
}

} // verus!
