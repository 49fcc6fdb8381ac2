//! The outputs of a compositor.
use crate::error::{fails_with, ErrorView, WayshotError};
use crate::region::{LogicalRegion, Position, Region, Size};
use vstd::prelude::*;

verus! {

/// How the contents of an output are turned before they are shown.
#[derive(Debug, Clone, Copy, PartialEq, Eq, Structural)]
pub enum Transform {
    Normal,
    _90,
    _180,
    _270,
    Flipped,
    Flipped90,
    Flipped180,
    Flipped270,
}

impl Transform {
    /// The transform exchanges the sides of an image.
    pub open spec fn swaps_sides(self) -> bool {
        self is _90 || self is _270 || self is Flipped90 || self is Flipped270
    }

    /// The size of an image of size `size` after the transform.
    pub fn rotate_size(self, size: Size) -> (res: Size)
        ensures
            res == self.rotated_size(size),
    {
        match self {
            Transform::_90 | Transform::_270 | Transform::Flipped90 | Transform::Flipped270 => Size {
                width: size.height,
                height: size.width,
            },
            _ => size,
        }
    }

    pub open spec fn rotated_size(self, size: Size) -> Size {
        if self.swaps_sides() {
            Size { width: size.height, height: size.width }
        } else {
            size
        }
    }
}

/// An output, and where it lies in the compositor's space. `O` is the handle by
/// which the compositor knows it.
#[derive(Debug)]
pub struct OutputInfo<O> {
    pub output: O,
    pub name: String,
    pub description: String,
    pub transform: Transform,
    pub physical_size: Size,
    pub logical_region: LogicalRegion,
    pub scale: i32,
}

impl<O: Clone> OutputInfo<O> {
    /// The same output, with a cloned handle.
    pub open spec fn is_clone_of(self, other: Self) -> bool {
        &&& cloned(other.output, self.output)
        &&& self.name@ == other.name@
        &&& self.description@ == other.description@
        &&& self.transform == other.transform
        &&& self.physical_size == other.physical_size
        &&& self.logical_region == other.logical_region
        &&& self.scale == other.scale
    }
}

impl<O: Clone> Clone for OutputInfo<O> {
    fn clone(&self) -> (res: Self)
        ensures
            res.is_clone_of(*self),
    {
        OutputInfo {
            output: self.output.clone(),
            name: self.name.clone(),
            description: self.description.clone(),
            transform: self.transform,
            physical_size: self.physical_size,
            logical_region: self.logical_region,
            scale: self.scale,
        }
    }
}

/// `clones` are the outputs `outputs`, with cloned handles.
pub open spec fn are_clones_of<O: Clone>(
    clones: Seq<OutputInfo<O>>,
    outputs: Seq<OutputInfo<O>>,
) -> bool {
    &&& clones.len() == outputs.len()
    &&& forall|i: int| 0 <= i < clones.len() ==> (#[trigger] clones[i]).is_clone_of(outputs[i])
}

/// `region` is the smallest rectangle that holds the logical regions of all
/// outputs.
pub open spec fn encloses<O>(region: Region, outputs: Seq<OutputInfo<O>>) -> bool {
    &&& forall|i: int|
        0 <= i < outputs.len() ==> {
            let r = (#[trigger] outputs[i]).logical_region.inner;
            &&& region.left() <= r.left()
            &&& region.top() <= r.top()
            &&& r.right() <= region.right()
            &&& r.bottom() <= region.bottom()
        }
    &&& exists|i: int|
        0 <= i < outputs.len() && (#[trigger] outputs[i]).logical_region.inner.left()
            == region.left()
    &&& exists|i: int|
        0 <= i < outputs.len() && (#[trigger] outputs[i]).logical_region.inner.top()
            == region.top()
    &&& exists|i: int|
        0 <= i < outputs.len() && (#[trigger] outputs[i]).logical_region.inner.right()
            == region.right()
    &&& exists|i: int|
        0 <= i < outputs.len() && (#[trigger] outputs[i]).logical_region.inner.bottom()
            == region.bottom()
}

impl LogicalRegion {
    /// The smallest region that holds all of `outputs`.
    pub fn enclosing<O>(outputs: &Vec<OutputInfo<O>>) -> (res: Result<Self, WayshotError>)
        requires
            forall|i: int|
                0 <= i < outputs@.len() ==> (
                #[trigger] outputs@[i]).logical_region.inner.corner_fits(),
        ensures
            outputs@.len() == 0 ==> fails_with(res, ErrorView::NoOutputs),
            outputs@.len() > 0 ==> (res matches Ok(region) && encloses(region.inner, outputs@)),
    {
        if outputs.len() == 0 {
            return Err(WayshotError::NoOutputs);
        }
        let first = outputs[0].logical_region.inner;
        let mut left: i64 = first.position.x as i64;
        let mut top: i64 = first.position.y as i64;
        let mut right: i64 = left + first.size.width as i64;
        let mut bottom: i64 = top + first.size.height as i64;
        let ghost mut l: int = 0;
        let ghost mut t: int = 0;
        let ghost mut r: int = 0;
        let ghost mut b: int = 0;
        let mut i: usize = 1;
        while i < outputs.len()
            invariant
                1 <= i <= outputs@.len(),
                forall|j: int|
                    0 <= j < outputs@.len() ==> (
                    #[trigger] outputs@[j]).logical_region.inner.corner_fits(),
                0 <= l < i && outputs@[l].logical_region.inner.left() == left,
                0 <= t < i && outputs@[t].logical_region.inner.top() == top,
                0 <= r < i && outputs@[r].logical_region.inner.right() == right,
                0 <= b < i && outputs@[b].logical_region.inner.bottom() == bottom,
                forall|j: int|
                    0 <= j < i ==> {
                        let region = (#[trigger] outputs@[j]).logical_region.inner;
                        &&& left <= region.left()
                        &&& top <= region.top()
                        &&& region.right() <= right
                        &&& region.bottom() <= bottom
                    },
            decreases outputs@.len() - i,
        {
            let region = outputs[i].logical_region.inner;
            let x: i64 = region.position.x as i64;
            let y: i64 = region.position.y as i64;
            let x_end: i64 = x + region.size.width as i64;
            let y_end: i64 = y + region.size.height as i64;
            if x < left {
                left = x;
                proof {
                    l = i as int;
                }
            }
            if y < top {
                top = y;
                proof {
                    t = i as int;
                }
            }
            if x_end > right {
                right = x_end;
                proof {
                    r = i as int;
                }
            }
            if y_end > bottom {
                bottom = y_end;
                proof {
                    b = i as int;
                }
            }
            i += 1;
        }
        proof {
            assert(outputs@[l].logical_region.inner.corner_fits());
            assert(outputs@[r].logical_region.inner.corner_fits());
            assert(outputs@[b].logical_region.inner.corner_fits());
        }
        let region = Region {
            position: Position { x: left as i32, y: top as i32 },
            size: Size { width: (right - left) as u32, height: (bottom - top) as u32 },
        };
        Ok(LogicalRegion { inner: region })
    }
}

/// A transform exchanges the sides of an image or leaves them, so that applying
/// it to a size twice gives the size back, and the number of pixels stays.
pub proof fn law_rotation_keeps_pixels(transform: Transform, size: Size)
    ensures
        transform.rotated_size(transform.rotated_size(size)) == size,
        ({
            let rotated = transform.rotated_size(size);
            rotated.width * rotated.height == size.width * size.height
        }),
{
    assert(size.width * size.height == size.height * size.width) by (nonlinear_arith);
}

/// The quarter turns exchange the sides of an image, mirrored or not; the other
/// transforms leave each side as it is.
pub proof fn law_quarter_turns_exchange_sides(transform: Transform, size: Size)
    ensures
        ({
            let quarter = transform == Transform::_90 || transform == Transform::_270 || transform
                == Transform::Flipped90 || transform == Transform::Flipped270;
            let turned = transform.rotated_size(size);
            &&& quarter ==> turned.width == size.height && turned.height == size.width
            &&& !quarter ==> turned.width == size.width && turned.height == size.height
        }),
{
}

/// A clone of an output describes the same output in all points.
pub proof fn law_clones_describe_the_same<O: Clone>(clone: OutputInfo<O>, info: OutputInfo<O>)
    requires
        clone.is_clone_of(info),
    ensures
        cloned(info.output, clone.output),
        clone.name@ == info.name@ && clone.description@ == info.description@,
        clone.transform == info.transform && clone.scale == info.scale,
        clone.physical_size == info.physical_size,
        clone.logical_region == info.logical_region,
{
}

/// The region around a number of outputs holds each of them, and every rectangle that
/// holds each of them holds this region.
pub proof fn law_enclosing_is_least<O>(region: Region, outputs: Seq<OutputInfo<O>>, other: Region)
    requires
        encloses(region, outputs),
    ensures
        forall|i: int|
            0 <= i < outputs.len() ==> {
                let r = (#[trigger] outputs[i]).logical_region.inner;
                &&& region.position.x <= r.position.x
                &&& region.position.y <= r.position.y
                &&& r.position.x + r.size.width <= region.position.x + region.size.width
                &&& r.position.y + r.size.height <= region.position.y + region.size.height
            },
        (forall|i: int|
            0 <= i < outputs.len() ==> {
                let r = (#[trigger] outputs[i]).logical_region.inner;
                &&& other.position.x <= r.position.x
                &&& other.position.y <= r.position.y
                &&& r.position.x + r.size.width <= other.position.x + other.size.width
                &&& r.position.y + r.size.height <= other.position.y + other.size.height
            }) ==> {
            &&& other.position.x <= region.position.x
            &&& other.position.y <= region.position.y
            &&& region.position.x + region.size.width <= other.position.x + other.size.width
            &&& region.position.y + region.size.height <= other.position.y + other.size.height
        },
{
}

} // verus!
