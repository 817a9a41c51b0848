use vstd::prelude::*;

verus! {

/// Width of every obstacle, in pixels.
pub const OBSTACLE_WIDTH: u32 = 10;

/// Height of every obstacle, in pixels.
pub const OBSTACLE_HEIGHT: u32 = 20;

/// A rectangle in screen pixel coordinates; `(pos_x, pos_y)` is its top-left corner.
#[derive(Clone, Copy, Debug, PartialEq, Eq, Structural)]
pub struct Object {
    pub width: u32,
    pub height: u32,
    pub pos_x: i32,
    pub pos_y: i32,
}

impl Object {
    /// Shifts the rectangle horizontally by `offset` pixels.
    pub fn move_by_px_x(&mut self, offset: i32)
        requires
            i32::MIN <= old(self).pos_x + offset <= i32::MAX,
        ensures
            *final(self) == (Object { pos_x: (old(self).pos_x + offset) as i32, ..*old(self) }),
    {
        self.pos_x = self.pos_x + offset;
    }

    /// An obstacle of the standard size at the origin.
    pub fn new() -> (r: Object)
        ensures
            r == (Object { width: OBSTACLE_WIDTH, height: OBSTACLE_HEIGHT, pos_x: 0, pos_y: 0 }),
    {
        Object { width: OBSTACLE_WIDTH, height: OBSTACLE_HEIGHT, pos_x: 0, pos_y: 0 }
    }

    /// The corners `(x0, y0, x1, y1)` of the rectangle to draw: top-left, then
    /// bottom-right.
    pub fn get_draw_coordinates(&self) -> (r: (i64, i64, i64, i64))
        ensures
            r.0 == self.pos_x,
            r.1 == self.pos_y,
            r.2 == self.pos_x + self.width,
            r.3 == self.pos_y + self.height,
    {
        (
            self.pos_x as i64,
            self.pos_y as i64,
            self.pos_x as i64 + self.width as i64,
            self.pos_y as i64 + self.height as i64,
        )
    }
}

} // verus!
