use vstd::prelude::*;

verus! {

/// A half-open rectangle of grid positions: columns `left..right`,
/// rows `top..bottom`.
#[derive(Clone, Copy, Debug, PartialEq, Eq, Structural)]
pub struct Region {
    pub left: i16,
    pub top: i16,
    pub right: i16,
    pub bottom: i16,
}

pub open spec fn min_int(a: int, b: int) -> int {
    if a <= b { a } else { b }
}

pub open spec fn max_int(a: int, b: int) -> int {
    if a >= b { a } else { b }
}

impl Region {
    pub open spec fn empty_spec(self) -> bool {
        self.right <= self.left || self.bottom <= self.top
    }

    pub open spec fn width_spec(self) -> int {
        if self.empty_spec() { 0 } else { self.right - self.left }
    }

    pub open spec fn height_spec(self) -> int {
        if self.empty_spec() { 0 } else { self.bottom - self.top }
    }

    /// Number of cells covered; zero for an empty region.
    pub open spec fn count(self) -> nat {
        (self.width_spec() * self.height_spec()) as nat
    }

    pub open spec fn contains(self, x: int, y: int) -> bool {
        self.left <= x < self.right && self.top <= y < self.bottom
    }

    /// The region clamped to `[0, w) x [0, h)`; an empty result is the
    /// all-zero region.
    pub open spec fn clip(self, w: int, h: int) -> Region {
        let l = max_int(self.left as int, 0);
        let t = max_int(self.top as int, 0);
        let r = min_int(self.right as int, w);
        let b = min_int(self.bottom as int, h);
        if r <= l || b <= t {
            Region { left: 0, top: 0, right: 0, bottom: 0 }
        } else {
            Region { left: l as i16, top: t as i16, right: r as i16, bottom: b as i16 }
        }
    }

    pub fn new(left: i16, top: i16, right: i16, bottom: i16) -> (r: Region)
        ensures
            r == (Region { left, top, right, bottom }),
    {
        Region { left, top, right, bottom }
    }

    pub fn is_empty(&self) -> (r: bool)
        ensures
            r == self.empty_spec(),
    {
        self.right <= self.left || self.bottom <= self.top
    }

    /// Number of cells covered; zero for an empty region.
    pub fn len(&self) -> (r: usize)
        ensures
            r == self.count(),
    {
        if self.is_empty() {
            0
        } else {
            let w = (self.right as i32 - self.left as i32) as u32;
            let h = (self.bottom as i32 - self.top as i32) as u32;
            assert(w * h <= 65535 * 65535) by (nonlinear_arith)
                requires
                    w <= 65535,
                    h <= 65535,
            ;
            let n: u32 = w * h;
            n as usize
        }
    }

    /// Clamps the region to a screen of `size` columns and rows.
    pub fn intersect(&self, size: [i16; 2]) -> (r: Region)
        ensures
            r == self.clip(size[0] as int, size[1] as int),
    {
        let l = if self.left < 0 { 0 } else { self.left };
        let t = if self.top < 0 { 0 } else { self.top };
        let r = if self.right > size[0] { size[0] } else { self.right };
        let b = if self.bottom > size[1] { size[1] } else { self.bottom };
        if r <= l || b <= t {
            Region { left: 0, top: 0, right: 0, bottom: 0 }
        } else {
            Region { left: l, top: t, right: r, bottom: b }
        }
    }
}

/// Clamping lands inside the screen: every covered position is on the
/// screen, and for a screen of non-negative size the bounds themselves lie
/// within it.
pub proof fn lemma_intersect_within(reg: Region, w: i16, h: i16)
    ensures
        forall|x: int, y: int|
            reg.clip(w as int, h as int).contains(x, y) ==> 0 <= x < w && 0 <= y < h,
        w >= 0 && h >= 0 ==> {
            let c = reg.clip(w as int, h as int);
            &&& 0 <= c.left <= c.right <= w
            &&& 0 <= c.top <= c.bottom <= h
        },
{
}

/// Clamping twice against the same screen size is the same as clamping once.
pub proof fn lemma_intersect_idempotent(reg: Region, w: i16, h: i16)
    ensures
        reg.clip(w as int, h as int).clip(w as int, h as int) == reg.clip(w as int, h as int),
{
}

} // verus!
