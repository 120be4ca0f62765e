//! The turtle: a cursor with a position, a heading and a pen, which draws on
//! an `unsvg` image as it moves with the pen down.
//!
//! Every value that the turtle keeps is an integer: positions move only by
//! whole steps that the image library rounds, and headings are whole degrees.

use vstd::prelude::*;
use unsvg::Image;

verus! {

#[verifier::external_type_specification]
#[verifier::external_body]
pub struct ExImage(unsvg::Image);

/// The largest distance from the origin, in either axis, at which the turtle
/// may stand or that it may travel in one line. Within it the image library
/// computes every end point without overflow.
pub const COORD_LIMIT: i32 = 536_870_912;

/// The number of colours in the palette.
pub const PALETTE_SIZE: i32 = 16;

pub open spec fn in_range(v: int) -> bool {
    -COORD_LIMIT <= v <= COORD_LIMIT
}

/// How many lines `Image::draw_simple_line` has drawn on `image`: the
/// stroked paths after the background.
pub uninterp spec fn line_count(image: Image) -> nat;

/// Relies on `unsvg::Image::new`, which builds an image of the given size
/// with a background and no lines, and panics on a size of zero.
#[verifier::external_body]
fn new_image(width: u32, height: u32) -> (r: Image)
    requires
        width >= 1,
        height >= 1,
    ensures
        line_count(r) == 0,
{
    Image::new(width, height)
}

/// Relies on `unsvg::get_end_coordinates`, which panics only where an end
/// coordinate leaves `i32`; within `COORD_LIMIT` it cannot. Its answer goes
/// through `f32::cos` and `f32::sin`, whose precision the standard library
/// leaves to the platform, so nothing is promised of it.
#[verifier::external_body]
fn end_coordinates(x: i32, y: i32, direction: i32, length: i32) -> (r: (i32, i32))
    requires
        in_range(x as int),
        in_range(y as int),
        in_range(length as int),
{
    unsvg::get_end_coordinates(x, y, direction, length)
}

/// Relies on `unsvg::Image::draw_simple_line`, drawn in colour `color` of
/// `unsvg::COLORS`: where it answers an end point it has appended one line
/// to the image, and where it answers an error it has left the image as it
/// was. It panics only as `get_end_coordinates` does.
#[verifier::external_body]
fn draw_line(image: &mut Image, x: i32, y: i32, direction: i32, length: i32, color: i32) -> (r: Option<(i32, i32)>)
    requires
        in_range(x as int),
        in_range(y as int),
        in_range(length as int),
        0 <= color < PALETTE_SIZE,
    ensures
        r is Some ==> line_count(*final(image)) == line_count(*old(image)) + 1,
        r is None ==> line_count(*final(image)) == line_count(*old(image)),
{
    image.draw_simple_line(x, y, direction, length, unsvg::COLORS[color as usize]).ok()
}

/// What went wrong in a turtle operation.
#[derive(Debug, PartialEq, Eq, Clone, Copy, Structural)]
pub enum TurtleError {
    /// A pen colour outside the palette.
    InvalidColor(i32),
    /// The turtle stands, or would travel, beyond `COORD_LIMIT`.
    OutOfRange,
    /// The image library could not build the line.
    DrawFailed,
}

/// The answers of the image library to the turtle's moves, in order: the
/// end point of each line or move, or nothing where a line failed.
pub type Replies = Seq<Option<(i32, i32)>>;

/// The state of a turtle: its position, heading and pen, the number of lines
/// it has drawn, and the answers the image library has given it.
pub struct TurtleView {
    pub x: i32,
    pub y: i32,
    pub heading: i32,
    pub pen_down: bool,
    pub pen_color: i32,
    pub lines: nat,
    pub replies: Replies,
}

pub struct Turtle {
    x: i32,
    y: i32,
    heading: i32,
    pen_down: bool,
    pen_color: i32,
    image: Image,
    replies: Ghost<Replies>,
}

/// `log` is the start of `o`.
pub open spec fn extends(log: Replies, o: Replies) -> bool {
    &&& log.len() <= o.len()
    &&& forall|i: int| 0 <= i < log.len() ==> #[trigger] log[i] == o[i]
}

/// The answer that the next move of `t` receives, among the answers `o`.
pub open spec fn next_reply(t: TurtleView, o: Replies) -> Option<(i32, i32)> {
    o[t.replies.len() as int]
}

impl View for Turtle {
    type V = TurtleView;

    closed spec fn view(&self) -> TurtleView {
        TurtleView {
            x: self.x,
            y: self.y,
            heading: self.heading,
            pen_down: self.pen_down,
            pen_color: self.pen_color,
            lines: line_count(self.image),
            replies: self.replies@,
        }
    }
}

/// A heading is in `0..360` and the pen colour is in the palette.
pub open spec fn turtle_wf(t: TurtleView) -> bool {
    &&& 0 <= t.heading < 360
    &&& 0 <= t.pen_color < PALETTE_SIZE
}

/// `d` degrees as a heading in `0..360`.
pub open spec fn normal_heading(d: int) -> i32 {
    (d % 360) as i32
}

/// The turtle after a move of `length` steps along its heading, where the
/// image library answers `reply`: it moves to the answered end point, and
/// with the pen down the move draws a line.
pub open spec fn turtle_move(t: TurtleView, length: i32, reply: Option<(i32, i32)>) -> Result<TurtleView, TurtleError> {
    if !(in_range(t.x as int) && in_range(t.y as int) && in_range(length as int)) {
        Err(TurtleError::OutOfRange)
    } else {
        match reply {
            Some(p) => Ok(
                TurtleView {
                    x: p.0,
                    y: p.1,
                    lines: if t.pen_down {
                        t.lines + 1
                    } else {
                        t.lines
                    },
                    replies: t.replies.push(reply),
                    ..t
                },
            ),
            None => Err(TurtleError::DrawFailed),
        }
    }
}

/// `-d`, where `-i32::MIN` is taken as `i32::MAX`.
pub open spec fn negated(d: i32) -> i32 {
    if d == i32::MIN {
        i32::MAX
    } else {
        -d as i32
    }
}

/// The distance from `a` to `b`, at most `i32::MAX`.
pub open spec fn gap(a: i32, b: i32) -> i32 {
    let d = if a < b {
        b - a
    } else {
        a - b
    };
    if d > i32::MAX {
        i32::MAX
    } else {
        d as i32
    }
}

/// The turtle after a jump to `v` on the axis that `horizontal` names: with
/// the pen down a line as long as the distance is drawn along that axis,
/// and the image library answers `reply`.
pub open spec fn turtle_jump(t: TurtleView, v: i32, horizontal: bool, reply: Option<(i32, i32)>) -> Result<TurtleView, TurtleError> {
    let from = if horizontal {
        t.x
    } else {
        t.y
    };
    let after = if horizontal {
        TurtleView { x: v, ..t }
    } else {
        TurtleView { y: v, ..t }
    };
    if !t.pen_down {
        Ok(after)
    } else if !(in_range(t.x as int) && in_range(t.y as int) && in_range(gap(from, v) as int)) {
        Err(TurtleError::OutOfRange)
    } else {
        match reply {
            Some(_) => Ok(TurtleView { lines: t.lines + 1, replies: t.replies.push(reply), ..after }),
            None => Err(TurtleError::DrawFailed),
        }
    }
}

/// A `&mut` turtle operation whose model is `m`: on success the turtle
/// becomes the model's result, on failure it is left as it was but for the
/// answers it received; those only grow.
pub open spec fn follows(
    r: Result<(), TurtleError>,
    before: TurtleView,
    after: TurtleView,
    m: Result<TurtleView, TurtleError>,
) -> bool {
    &&& extends(before.replies, after.replies)
    &&& match m {
        Ok(t) => r is Ok && after == t,
        Err(e) => r == Err::<(), TurtleError>(e) && after == (TurtleView {
            replies: after.replies,
            ..before
        }),
    }
}

impl Turtle {
    /// A turtle in the middle of a blank `width` by `height` image, heading
    /// up, pen up, in colour 7.
    pub fn new(width: u32, height: u32) -> (r: Turtle)
        requires
            width >= 1,
            height >= 1,
        ensures
            r@ == (TurtleView {
                x: (width / 2) as i32,
                y: (height / 2) as i32,
                heading: 0,
                pen_down: false,
                pen_color: 7,
                lines: 0,
                replies: Seq::empty(),
            }),
            turtle_wf(r@),
    {
        Turtle {
            x: (width / 2) as i32,
            y: (height / 2) as i32,
            heading: 0,
            pen_down: false,
            pen_color: 7,
            image: new_image(width, height),
            replies: Ghost(Seq::empty()),
        }
    }

    /// The image drawn so far.
    pub fn image(&self) -> &Image {
        &self.image
    }

    pub fn penup(&mut self)
        ensures
            final(self)@ == (TurtleView { pen_down: false, ..old(self)@ }),
    {
        self.pen_down = false;
    }

    pub fn pendown(&mut self)
        ensures
            final(self)@ == (TurtleView { pen_down: true, ..old(self)@ }),
    {
        self.pen_down = true;
    }

    /// Selects colour `color` of the palette; fails outside `0..16`.
    pub fn set_pen_color(&mut self, color: i32) -> (r: Result<(), TurtleError>)
        ensures
            follows(
                r,
                old(self)@,
                final(self)@,
                if 0 <= color < PALETTE_SIZE {
                    Ok(TurtleView { pen_color: color, ..old(self)@ })
                } else {
                    Err(TurtleError::InvalidColor(color))
                },
            ),
    {
        if 0 <= color && color < PALETTE_SIZE {
            self.pen_color = color;
            Ok(())
        } else {
            Err(TurtleError::InvalidColor(color))
        }
    }

    fn move_turtle(&mut self, length: i32) -> (r: Result<(), TurtleError>)
        requires
            turtle_wf(old(self)@),
        ensures
            forall|o: Replies|
                extends(final(self)@.replies, o) ==> follows(
                    r,
                    old(self)@,
                    final(self)@,
                    turtle_move(old(self)@, length, next_reply(old(self)@, o)),
                ),
    {
        if !(-COORD_LIMIT <= self.x && self.x <= COORD_LIMIT && -COORD_LIMIT <= self.y && self.y
            <= COORD_LIMIT && -COORD_LIMIT <= length && length <= COORD_LIMIT) {
            return Err(TurtleError::OutOfRange);
        }
        let reply = if self.pen_down {
            draw_line(&mut self.image, self.x, self.y, self.heading, length, self.pen_color)
        } else {
            Some(end_coordinates(self.x, self.y, self.heading, length))
        };
        self.replies = Ghost(self.replies@.push(reply));
        assert(self.replies@[old(self).replies@.len() as int] == reply);
        match reply {
            Some((x, y)) => {
                self.x = x;
                self.y = y;
                Ok(())
            },
            None => Err(TurtleError::DrawFailed),
        }
    }

    /// Moves `distance` steps along the heading, drawing if the pen is down.
    pub fn forward(&mut self, distance: i32) -> (r: Result<(), TurtleError>)
        requires
            turtle_wf(old(self)@),
        ensures
            forall|o: Replies|
                extends(final(self)@.replies, o) ==> follows(
                    r,
                    old(self)@,
                    final(self)@,
                    turtle_move(old(self)@, distance, next_reply(old(self)@, o)),
                ),
    {
        self.move_turtle(distance)
    }

    /// Moves `distance` steps against the heading, drawing if the pen is down.
    pub fn back(&mut self, distance: i32) -> (r: Result<(), TurtleError>)
        requires
            turtle_wf(old(self)@),
        ensures
            forall|o: Replies|
                extends(final(self)@.replies, o) ==> follows(
                    r,
                    old(self)@,
                    final(self)@,
                    turtle_move(old(self)@, negated(distance), next_reply(old(self)@, o)),
                ),
    {
        let length = if distance == i32::MIN {
            i32::MAX
        } else {
            -distance
        };
        self.move_turtle(length)
    }

    /// Turns `degrees` anticlockwise.
    pub fn left(&mut self, degrees: i32)
        ensures
            final(self)@ == (TurtleView {
                heading: normal_heading(old(self)@.heading - degrees),
                ..old(self)@
            }),
    {
        let h = (self.heading as i64 - degrees as i64) % 360;
        self.heading = (if h < 0 { h + 360 } else { h }) as i32;
    }

    /// Turns `degrees` clockwise.
    pub fn right(&mut self, degrees: i32)
        ensures
            final(self)@ == (TurtleView {
                heading: normal_heading(old(self)@.heading + degrees),
                ..old(self)@
            }),
    {
        let h = (self.heading as i64 + degrees as i64) % 360;
        self.heading = (if h < 0 { h + 360 } else { h }) as i32;
    }

    /// Sets the heading to `degrees`, taken modulo 360.
    pub fn set_heading(&mut self, degrees: i32)
        ensures
            final(self)@ == (TurtleView { heading: normal_heading(degrees as int), ..old(self)@ }),
    {
        let h = degrees % 360;
        self.heading = if h < 0 { h + 360 } else { h };
    }

    fn jump(&mut self, v: i32, horizontal: bool) -> (r: Result<(), TurtleError>)
        requires
            turtle_wf(old(self)@),
        ensures
            forall|o: Replies|
                extends(final(self)@.replies, o) ==> follows(
                    r,
                    old(self)@,
                    final(self)@,
                    turtle_jump(old(self)@, v, horizontal, next_reply(old(self)@, o)),
                ),
    {
        if self.pen_down {
            let from = if horizontal {
                self.x
            } else {
                self.y
            };
            let direction: i32 = if horizontal {
                if v < from {
                    270
                } else {
                    90
                }
            } else {
                if v < from {
                    0
                } else {
                    180
                }
            };
            let d: i64 = if v < from {
                from as i64 - v as i64
            } else {
                v as i64 - from as i64
            };
            let distance: i32 = if d > i32::MAX as i64 {
                i32::MAX
            } else {
                d as i32
            };
            if !(-COORD_LIMIT <= self.x && self.x <= COORD_LIMIT && -COORD_LIMIT <= self.y
                && self.y <= COORD_LIMIT && distance <= COORD_LIMIT) {
                return Err(TurtleError::OutOfRange);
            }
            let reply = draw_line(&mut self.image, self.x, self.y, direction, distance, self.pen_color);
            self.replies = Ghost(self.replies@.push(reply));
            assert(self.replies@[old(self).replies@.len() as int] == reply);
            if reply.is_none() {
                return Err(TurtleError::DrawFailed);
            }
        }
        if horizontal {
            self.x = v;
        } else {
            self.y = v;
        }
        Ok(())
    }

    /// Moves straight to x coordinate `x`, drawing if the pen is down.
    pub fn set_x(&mut self, x: i32) -> (r: Result<(), TurtleError>)
        requires
            turtle_wf(old(self)@),
        ensures
            forall|o: Replies|
                extends(final(self)@.replies, o) ==> follows(
                    r,
                    old(self)@,
                    final(self)@,
                    turtle_jump(old(self)@, x, true, next_reply(old(self)@, o)),
                ),
    {
        self.jump(x, true)
    }

    /// Moves straight to y coordinate `y`, drawing if the pen is down.
    pub fn set_y(&mut self, y: i32) -> (r: Result<(), TurtleError>)
        requires
            turtle_wf(old(self)@),
        ensures
            forall|o: Replies|
                extends(final(self)@.replies, o) ==> follows(
                    r,
                    old(self)@,
                    final(self)@,
                    turtle_jump(old(self)@, y, false, next_reply(old(self)@, o)),
                ),
    {
        self.jump(y, false)
    }

    pub fn xcor(&self) -> (r: i32)
        ensures
            r == self@.x,
    {
        self.x
    }

    pub fn ycor(&self) -> (r: i32)
        ensures
            r == self@.y,
    {
        self.y
    }

    pub fn heading(&self) -> (r: i32)
        ensures
            r == self@.heading,
    {
        self.heading
    }

    pub fn pen_down(&self) -> (r: bool)
        ensures
            r == self@.pen_down,
    {
        self.pen_down
    }

    pub fn color(&self) -> (r: i32)
        ensures
            r == self@.pen_color,
    {
        self.pen_color
    }
}

} // verus!
