//! Rectangles of the screen that are captured and read.
use vstd::prelude::*;
use crate::strings::{i32_decimal, signed_decimal};

verus! {

/// A rectangle of the screen, by its top-left and bottom-right corners in
/// pixels.
#[derive(Clone, Copy)]
pub struct CaptureArea {
    pub top_left: (i32, i32),
    pub bottom_right: (i32, i32),
}

/// How an area is written out: "(x1, y1) => (x2, y2)".
pub open spec fn area_text(a: CaptureArea) -> Seq<char> {
    seq!['('] + signed_decimal(a.top_left.0 as int) + seq![',', ' '] + signed_decimal(
        a.top_left.1 as int,
    ) + seq![')', ' ', '=', '>', ' ', '('] + signed_decimal(a.bottom_right.0 as int) + seq![
        ',',
        ' ',
    ] + signed_decimal(a.bottom_right.1 as int) + seq![')']
}

impl CaptureArea {
    /// The empty area at the origin.
    pub fn new() -> (r: Self)
        ensures
            r.top_left == (0i32, 0i32),
            r.bottom_right == (0i32, 0i32),
    {
        CaptureArea { top_left: (0, 0), bottom_right: (0, 0) }
    }

    /// The width and height handed to the screen grabber: the differences of
    /// the corners' coordinates, taken as `u32` (a negative difference wraps
    /// around).
    pub fn capture_size(&self) -> (r: (u32, u32))
        requires
            i32::MIN <= self.bottom_right.0 - self.top_left.0 <= i32::MAX,
            i32::MIN <= self.bottom_right.1 - self.top_left.1 <= i32::MAX,
        ensures
            r.0 == (self.bottom_right.0 - self.top_left.0) as u32,
            r.1 == (self.bottom_right.1 - self.top_left.1) as u32,
    {
        let w = self.bottom_right.0 - self.top_left.0;
        let h = self.bottom_right.1 - self.top_left.1;
        (w as u32, h as u32)
    }

    /// The area written out as "(x1, y1) => (x2, y2)".
    pub fn describe(&self) -> (r: String)
        ensures
            r@ == area_text(*self),
    {
        let mut r = "(".to_owned();
        let a = i32_decimal(self.top_left.0);
        r.append(a.as_str());
        r.append(", ");
        let b = i32_decimal(self.top_left.1);
        r.append(b.as_str());
        r.append(") => (");
        let c = i32_decimal(self.bottom_right.0);
        r.append(c.as_str());
        r.append(", ");
        let d = i32_decimal(self.bottom_right.1);
        r.append(d.as_str());
        r.append(")");
        proof {
            reveal_strlit("(");
            reveal_strlit(", ");
            reveal_strlit(") => (");
            reveal_strlit(")");
        }
        assert(r@ =~= area_text(*self));
        r
    }
}

} // verus!
