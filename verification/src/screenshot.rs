//! Screenshots of a region or of whole outputs, put together from the frames of
//! the outputs.
use crate::binary64::{
    law_offsets_are_exact, lemma_rounding_keeps_large, scale_offset, scaled_offset, SIGNIFICANDS,
};
use crate::canvas::{
    image_layout, image_pixels, in_image, new_rgba8, pixels_of, replace, Rgba,
};
use crate::connection::WayshotConnection;
use crate::convert::Converter;
use crate::error::{fails_with, ErrorView, WayshotError};
use crate::output::{are_clones_of, encloses, OutputInfo};
use crate::region::{
    law_embedded_edges, law_embedding_is_intersection, law_overlap_is_shared_point, min,
    EmbeddedRegion, LogicalRegion, Region, Size,
};
use crate::screencopy::{FrameCopy, FrameFormat};
use image::DynamicImage;
use vstd::prelude::*;

verus! {

/// What a screenshot is taken of. `F` selects a region while the screen is frozen.
#[derive(Debug)]
pub enum RegionCapturer<O, F> {
    /// Of these outputs.
    Outputs(Vec<OutputInfo<O>>),
    /// Of this region.
    Region(LogicalRegion),
    /// Of the region that is selected.
    Freeze(F),
}

/// The places in `outputs` of those that share a point with `region`, in order.
pub open spec fn overlapping<O>(outputs: Seq<OutputInfo<O>>, region: LogicalRegion) -> Seq<int>
    decreases outputs.len(),
{
    if outputs.len() == 0 {
        Seq::empty()
    } else {
        let before = overlapping(outputs.drop_last(), region);
        if region.inner.overlaps(outputs.last().logical_region.inner) {
            before.push(outputs.len() - 1)
        } else {
            before
        }
    }
}

/// `frame` asks for the part of `region` that lies on `output`.
pub open spec fn is_part<O>(
    frame: (&OutputInfo<O>, Option<EmbeddedRegion>),
    region: LogicalRegion,
    output: OutputInfo<O>,
) -> bool {
    &&& *frame.0 == output
    &&& frame.1 matches Some(part) && part.wf() && part.is_overlap(region, output.logical_region)
}

/// `frames` asks for the whole of each of `outputs`.
pub open spec fn are_whole<O>(
    frames: Seq<(&OutputInfo<O>, Option<EmbeddedRegion>)>,
    outputs: Seq<OutputInfo<O>>,
) -> bool {
    &&& frames.len() == outputs.len()
    &&& forall|i: int|
        0 <= i < frames.len() ==> *(#[trigger] frames[i]).0 == outputs[i] && frames[i].1 is None
}

impl<O, F> RegionCapturer<O, F> {
    /// `frames` is what has to be captured: all of the given outputs, the parts of
    /// a given region that lie on outputs, or all outputs, from which a region is
    /// selected later.
    pub open spec fn is_plan(
        self,
        known: Seq<OutputInfo<O>>,
        frames: Seq<(&OutputInfo<O>, Option<EmbeddedRegion>)>,
    ) -> bool {
        match self {
            RegionCapturer::Outputs(outputs) => are_whole(frames, outputs@),
            RegionCapturer::Freeze(_) => are_whole(frames, known),
            RegionCapturer::Region(region) => {
                let places = overlapping(known, region);
                &&& frames.len() == places.len()
                &&& forall|i: int|
                    0 <= i < frames.len() ==> is_part(
                        #[trigger] frames[i],
                        region,
                        known[places[i]],
                    )
            },
        }
    }

    /// The outputs that have to be captured, each with the part of it that is
    /// asked for, or with none for the whole.
    pub fn plan<'a, H>(&'a self, connection: &'a WayshotConnection<O, H>) -> (res: Vec<
        (&'a OutputInfo<O>, Option<EmbeddedRegion>),
    >)
        requires
            self is Region ==> forall|i: int|
                0 <= i < connection.output_infos@.len() ==> {
                    let size = (
                    #[trigger] connection.output_infos@[i]).logical_region.inner.size;
                    size.width <= i32::MAX && size.height <= i32::MAX
                },
        ensures
            self.is_plan(connection.output_infos@, res@),
    {
        match self {
            RegionCapturer::Outputs(outputs) => whole_outputs(outputs),
            RegionCapturer::Freeze(_) => whole_outputs(&connection.output_infos),
            RegionCapturer::Region(region) => parts_of(*region, &connection.output_infos),
        }
    }

    /// The region that the screenshot shows; `selected` is the outcome of the
    /// selection on a frozen screen.
    pub fn capture_region(&self, selected: Result<LogicalRegion, WayshotError>) -> (res: Result<
        LogicalRegion,
        WayshotError,
    >)
        requires
            self matches RegionCapturer::Outputs(outputs) ==> forall|i: int|
                0 <= i < outputs@.len() ==> (
                #[trigger] outputs@[i]).logical_region.inner.corner_fits(),
        ensures
            match self {
                RegionCapturer::Outputs(outputs) => if outputs@.len() == 0 {
                    fails_with(res, ErrorView::NoOutputs)
                } else {
                    res matches Ok(region) && encloses(region.inner, outputs@)
                },
                RegionCapturer::Region(region) => res == Ok::<LogicalRegion, WayshotError>(*region),
                RegionCapturer::Freeze(_) => res == selected,
            },
    {
        match self {
            RegionCapturer::Outputs(outputs) => LogicalRegion::enclosing(outputs),
            RegionCapturer::Region(region) => Ok(*region),
            RegionCapturer::Freeze(_) => selected,
        }
    }
}

fn whole_outputs<'a, O>(outputs: &'a Vec<OutputInfo<O>>) -> (res: Vec<
    (&'a OutputInfo<O>, Option<EmbeddedRegion>),
>)
    ensures
        are_whole(res@, outputs@),
{
    let mut frames: Vec<(&'a OutputInfo<O>, Option<EmbeddedRegion>)> = Vec::new();
    let mut i: usize = 0;
    while i < outputs.len()
        invariant
            i <= outputs@.len(),
            frames@.len() == i,
            forall|j: int|
                0 <= j < i ==> *(#[trigger] frames@[j]).0 == outputs@[j] && frames@[j].1 is None,
        decreases outputs@.len() - i,
    {
        frames.push((&outputs[i], None));
        i += 1;
    }
    frames
}

fn parts_of<'a, O>(region: LogicalRegion, outputs: &'a Vec<OutputInfo<O>>) -> (res: Vec<
    (&'a OutputInfo<O>, Option<EmbeddedRegion>),
>)
    requires
        forall|i: int|
            0 <= i < outputs@.len() ==> {
                let size = (#[trigger] outputs@[i]).logical_region.inner.size;
                size.width <= i32::MAX && size.height <= i32::MAX
            },
    ensures
        res@.len() == overlapping(outputs@, region).len(),
        forall|i: int|
            0 <= i < res@.len() ==> is_part(
                #[trigger] res@[i],
                region,
                outputs@[overlapping(outputs@, region)[i]],
            ),
{
    let mut frames: Vec<(&'a OutputInfo<O>, Option<EmbeddedRegion>)> = Vec::new();
    let mut i: usize = 0;
    while i < outputs.len()
        invariant
            i <= outputs@.len(),
            forall|j: int|
                0 <= j < outputs@.len() ==> {
                    let size = (#[trigger] outputs@[j]).logical_region.inner.size;
                    size.width <= i32::MAX && size.height <= i32::MAX
                },
            frames@.len() == overlapping(outputs@.take(i as int), region).len(),
            forall|j: int|
                0 <= j < frames@.len() ==> is_part(
                    #[trigger] frames@[j],
                    region,
                    outputs@[overlapping(outputs@.take(i as int), region)[j]],
                ),
        decreases outputs@.len() - i,
    {
        let ghost before = overlapping(outputs@.take(i as int), region);
        let output = &outputs[i];
        proof {
            let next = outputs@.take(i + 1);
            assert(next.drop_last() =~= outputs@.take(i as int));
            assert(next.last() == outputs@[i as int]);
        }
        if let Some(part) = EmbeddedRegion::new(region, output.logical_region) {
            frames.push((output, Some(part)));
            assert(overlapping(outputs@.take(i + 1), region) == before.push(i as int));
        }
        i += 1;
    }
    assert(outputs@.take(i as int) =~= outputs@);
    frames
}

/// An output is among those that overlap a region exactly if it shares a point
/// with it, and the order of the outputs is kept.
pub proof fn law_overlapping_outputs<O>(
    outputs: Seq<OutputInfo<O>>,
    region: LogicalRegion,
)
    ensures
        forall|i: int|
            0 <= i < outputs.len() ==> (overlapping(outputs, region).contains(i) <==> region.inner
                .overlaps((#[trigger] outputs[i]).logical_region.inner)),
        forall|k: int|
            0 <= k < overlapping(outputs, region).len() ==> 0 <= #[trigger] overlapping(
                outputs,
                region,
            )[k] < outputs.len(),
        forall|k: int, l: int|
            0 <= k < l < overlapping(outputs, region).len() ==> (#[trigger] overlapping(
                outputs,
                region,
            )[k]) < (#[trigger] overlapping(outputs, region)[l]),
    decreases outputs.len(),
{
    if outputs.len() > 0 {
        let rest = outputs.drop_last();
        law_overlapping_outputs(rest, region);
        let before = overlapping(rest, region);
        let all = overlapping(outputs, region);
        let n = outputs.len() - 1;
        if region.inner.overlaps(outputs.last().logical_region.inner) {
            assert(all == before.push(n));
            assert(all[all.len() - 1] == n);
        }
        assert forall|i: int| 0 <= i < outputs.len() implies (all.contains(i)
            <==> region.inner.overlaps((#[trigger] outputs[i]).logical_region.inner)) by {
            if i < n {
                assert(rest[i] == outputs[i]);
                if before.contains(i) {
                    let k = before.index_of(i);
                    assert(all[k] == i);
                }
                if all.contains(i) {
                    let k = all.index_of(i);
                    assert(before[k] == i);
                }
            } else {
                if all.contains(i) && !region.inner.overlaps(outputs.last().logical_region.inner) {
                    let k = before.index_of(i);
                    assert(before[k] == n);
                }
            }
        }
    }
}

/// `scale` is the largest of one and the scales of the captured outputs.
pub open spec fn is_max_scale<O>(
    scale: int,
    frames: Seq<(&OutputInfo<O>, Option<EmbeddedRegion>)>,
) -> bool {
    &&& scale >= 1
    &&& forall|i: int| 0 <= i < frames.len() ==> (#[trigger] frames[i]).0.scale <= scale
    &&& scale == 1 || exists|i: int| 0 <= i < frames.len() && (#[trigger] frames[i]).0.scale == scale
}

/// The scale that a screenshot of these outputs has.
pub fn max_scale<O>(frames: &Vec<(&OutputInfo<O>, Option<EmbeddedRegion>)>) -> (res: i32)
    ensures
        is_max_scale(res as int, frames@),
{
    let mut scale: i32 = 1;
    let mut i: usize = 0;
    while i < frames.len()
        invariant
            i <= frames@.len(),
            scale >= 1,
            forall|j: int| 0 <= j < i ==> (#[trigger] frames@[j]).0.scale <= scale,
            scale == 1 || exists|j: int| 0 <= j < i && (#[trigger] frames@[j]).0.scale == scale,
        decreases frames@.len() - i,
    {
        let output_scale: i32 = frames[i].0.scale;
        if output_scale > scale {
            scale = output_scale;
            assert(frames@[i as int].0.scale == scale);
        }
        i += 1;
    }
    scale
}

/// The size of a screenshot of `region`: a side that cannot be expressed is cut to
/// the longest that can.
pub open spec fn canvas_size(region: LogicalRegion, scale: int) -> Size {
    Size {
        width: min(region.inner.size.width * scale, u32::MAX as int) as u32,
        height: min(region.inner.size.height * scale, u32::MAX as int) as u32,
    }
}

fn scale_side(side: u32, scale: i32) -> (res: u32)
    requires
        scale >= 1,
    ensures
        res == min(side * scale, u32::MAX as int),
{
    proof {
        assert(0 <= side * scale <= 0xffff_ffff * 0x7fff_ffff) by (nonlinear_arith)
            requires
                side <= 0xffff_ffff,
                1 <= scale <= 0x7fff_ffff,
        ;
    }
    let scaled: u64 = side as u64 * scale as u64;
    if scaled <= u32::MAX as u64 {
        scaled as u32
    } else {
        u32::MAX
    }
}

/// A frame as an image, turned and scaled as it goes into the screenshot, and what
/// it shows.
#[derive(Debug)]
pub struct Tile {
    pub image: DynamicImage,
    pub logical_region: LogicalRegion,
}

impl Tile {
    /// The column of the screenshot at which the tile begins.
    pub open spec fn x(self, region: LogicalRegion, scale: int) -> int {
        scaled_offset(self.logical_region.inner.left() - region.inner.left(), scale)
    }

    /// The row of the screenshot at which the tile begins.
    pub open spec fn y(self, region: LogicalRegion, scale: int) -> int {
        scaled_offset(self.logical_region.inner.top() - region.inner.top(), scale)
    }

    /// The tile lies over the pixel of the screenshot.
    pub open spec fn covers(self, region: LogicalRegion, scale: int, pixel: (int, int)) -> bool {
        image_pixels(self.image).contains_key(
            (pixel.0 - self.x(region, scale), pixel.1 - self.y(region, scale)),
        )
    }

    /// The colour that the tile has at the pixel of the screenshot.
    pub open spec fn color(self, region: LogicalRegion, scale: int, pixel: (int, int)) -> Rgba {
        image_pixels(self.image)[(
            pixel.0 - self.x(region, scale),
            pixel.1 - self.y(region, scale),
        )]
    }
}

/// The colour of a pixel of the screenshot: that of the last tile that lies over
/// it, or transparent.
pub open spec fn composed(
    tiles: Seq<Tile>,
    region: LogicalRegion,
    scale: int,
    pixel: (int, int),
) -> Rgba
    decreases tiles.len(),
{
    if tiles.len() == 0 {
        (0, 0, 0, 0)
    } else if tiles.last().covers(region, scale, pixel) {
        tiles.last().color(region, scale, pixel)
    } else {
        composed(tiles.drop_last(), region, scale, pixel)
    }
}

/// The screenshot that is put together from `tiles`.
pub open spec fn composition(tiles: Seq<Tile>, region: LogicalRegion, scale: int) -> Map<
    (int, int),
    Rgba,
> {
    let size = canvas_size(region, scale);
    Map::new(
        |p: (int, int)| in_image(size.width as int, size.height as int, p),
        |p: (int, int)| composed(tiles, region, scale, p),
    )
}

/// All of `tiles` are there.
pub open spec fn all_ok(tiles: Seq<Result<Tile, WayshotError>>) -> bool {
    forall|i: int| 0 <= i < tiles.len() ==> (#[trigger] tiles[i]) is Ok
}

/// `error` is the first error among `tiles`.
pub open spec fn is_first_error(error: WayshotError, tiles: Seq<Result<Tile, WayshotError>>) -> bool {
    exists|i: int|
        {
            &&& 0 <= i < tiles.len()
            &&& #[trigger] tiles[i] == Err::<Tile, WayshotError>(error)
            &&& forall|j: int| 0 <= j < i ==> (#[trigger] tiles[j]) is Ok
        }
}

/// Puts a screenshot of `region` together from the frames of the outputs, one over
/// the other in the order in which they come. The first frame that could not be had
/// is reported; without any frame, the region lies on no output.
pub fn compose(
    tiles: Vec<Result<Tile, WayshotError>>,
    region: LogicalRegion,
    scale: i32,
) -> (res: Result<DynamicImage, WayshotError>)
    requires
        scale >= 1,
        tiles@.len() > 0 ==> {
            let size = canvas_size(region, scale as int);
            &&& 4 * size.width <= usize::MAX
            &&& 4 * size.width * size.height <= isize::MAX
        },
    ensures
        tiles@.len() == 0 ==> fails_with(res, ErrorView::NoOutputs),
        tiles@.len() > 0 && !all_ok(tiles@) ==> (res matches Err(error) && is_first_error(
            error,
            tiles@,
        )),
        tiles@.len() > 0 && all_ok(tiles@) ==> (res matches Ok(image) && {
            let size = canvas_size(region, scale as int);
            &&& image_layout(image) == (size.width as int, size.height as int, true)
            &&& image_pixels(image) == composition(
                tiles@.map_values(|tile: Result<Tile, WayshotError>| tile->Ok_0),
                region,
                scale as int,
            )
        }),
{
    if tiles.len() == 0 {
        return Err(WayshotError::NoOutputs);
    }
    let width: u32 = scale_side(region.inner.size.width, scale);
    let height: u32 = scale_side(region.inner.size.height, scale);
    let mut canvas = new_rgba8(width, height);
    let mut rest = tiles;
    let ghost all = tiles@;
    let ghost given = all.map_values(|tile: Result<Tile, WayshotError>| tile->Ok_0);
    let ghost mut done: int = 0;
    proof {
        assert(image_pixels(canvas) =~= composition(given.take(0), region, scale as int));
        assert(rest@ =~= all.skip(0));
    }
    while rest.len() > 0
        invariant
            all == tiles@,
            all.len() > 0,
            0 <= done <= all.len(),
            scale >= 1,
            given == all.map_values(|tile: Result<Tile, WayshotError>| tile->Ok_0),
            rest@ == all.skip(done),
            forall|i: int| 0 <= i < done ==> (#[trigger] all[i]) is Ok,
            image_layout(canvas) == (
                canvas_size(region, scale as int).width as int,
                canvas_size(region, scale as int).height as int,
                true,
            ),
            image_pixels(canvas) == composition(given.take(done), region, scale as int),
        decreases rest@.len(),
    {
        let next = rest.remove(0);
        assert(next == all[done]);
        match next {
            Err(error) => {
                assert(all[done] == Err::<Tile, WayshotError>(error));
                return Err(error);
            },
            Ok(tile) => {
                let dx: i64 = tile.logical_region.inner.position.x as i64
                    - region.inner.position.x as i64;
                let dy: i64 = tile.logical_region.inner.position.y as i64
                    - region.inner.position.y as i64;
                let x: i64 = scale_offset(dx, scale);
                let y: i64 = scale_offset(dy, scale);
                let ghost before = image_pixels(canvas);
                replace(&mut canvas, &tile.image, x, y);
                proof {
                    let tiles_before = given.take(done);
                    let tiles_now = given.take(done + 1);
                    assert(tiles_now.drop_last() =~= tiles_before);
                    assert(tiles_now.last() == tile);
                    assert(image_pixels(canvas) =~= composition(
                        tiles_now,
                        region,
                        scale as int,
                    ));
                    done = done + 1;
                    assert(rest@ =~= all.skip(done));
                }
            },
        }
    }
    assert(given.take(done) =~= given);
    Ok(canvas)
}

impl<O, H> WayshotConnection<O, H> {
    /// Copies the frames that a plan asks for, in its order, until one cannot be had.
    /// `capture` copies the frame of an output, or of a part of it.
    pub fn capture_frame_copies<
        T,
        E,
        F: Fn(&OutputInfo<O>, Option<EmbeddedRegion>) -> Result<T, E>,
    >(plan: &Vec<(&OutputInfo<O>, Option<EmbeddedRegion>)>, capture: F) -> (res: Result<Vec<T>, E>)
        requires
            forall|i: int|
                0 <= i < plan@.len() ==> call_requires(
                    capture,
                    ((#[trigger] plan@[i]).0, plan@[i].1),
                ),
        ensures
            match res {
                Ok(copies) => {
                    &&& copies@.len() == plan@.len()
                    &&& forall|i: int|
                        0 <= i < plan@.len() ==> call_ensures(
                            capture,
                            (plan@[i].0, plan@[i].1),
                            Ok::<T, E>(#[trigger] copies@[i]),
                        )
                },
                Err(error) => exists|i: int|
                    {
                        &&& 0 <= i < plan@.len()
                        &&& call_ensures(
                            capture,
                            ((#[trigger] plan@[i]).0, plan@[i].1),
                            Err::<T, E>(error),
                        )
                        &&& forall|j: int| 0 <= j < i ==> can_be_copied(capture, #[trigger] plan@[j])
                    },
            },
    {
        let mut copies: Vec<T> = Vec::new();
        let mut i: usize = 0;
        while i < plan.len()
            invariant
                i <= plan@.len(),
                copies@.len() == i,
                forall|j: int|
                    0 <= j < plan@.len() ==> call_requires(
                        capture,
                        ((#[trigger] plan@[j]).0, plan@[j].1),
                    ),
                forall|j: int|
                    0 <= j < i ==> call_ensures(
                        capture,
                        (plan@[j].0, plan@[j].1),
                        Ok::<T, E>(#[trigger] copies@[j]),
                    ),
            decreases plan@.len() - i,
        {
            let (output_info, capture_region) = plan[i];
            assert(plan@[i as int] == (output_info, capture_region));
            match capture(output_info, capture_region) {
                Ok(copy) => copies.push(copy),
                Err(error) => {
                    assert forall|j: int| 0 <= j < i implies can_be_copied(
                        capture,
                        #[trigger] plan@[j],
                    ) by {
                        assert(call_ensures(
                            capture,
                            (plan@[j].0, plan@[j].1),
                            Ok::<T, E>(copies@[j]),
                        ));
                    }
                    return Err(error);
                },
            }
            i += 1;
        }
        Ok(copies)
    }
}

/// The copy of the frame can be had.
pub open spec fn can_be_copied<
    O,
    T,
    E,
    F: Fn(&OutputInfo<O>, Option<EmbeddedRegion>) -> Result<T, E>,
>(capture: F, frame: (&OutputInfo<O>, Option<EmbeddedRegion>)) -> bool {
    exists|copy: T| #[trigger] call_ensures(capture, (frame.0, frame.1), Ok::<T, E>(copy))
}

/// What a screenshot of the given outputs captures: all of them, where there is one.
pub open spec fn is_capture_of<O: Clone, F>(
    res: Result<RegionCapturer<O, F>, WayshotError>,
    outputs: Seq<OutputInfo<O>>,
) -> bool {
    if outputs.len() == 0 {
        fails_with(res, ErrorView::NoOutputs)
    } else {
        res matches Ok(RegionCapturer::Outputs(clones)) && are_clones_of(clones@, outputs)
    }
}

impl<O: Clone, H> WayshotConnection<O, H> {
    /// What a screenshot of the given outputs captures; there has to be one.
    pub fn screenshot_outputs<F>(&self, outputs: &[OutputInfo<O>]) -> (res: Result<
        RegionCapturer<O, F>,
        WayshotError,
    >)
        ensures
            is_capture_of(res, outputs@),
    {
        if outputs.len() == 0 {
            return Err(WayshotError::NoOutputs);
        }
        let mut clones: Vec<OutputInfo<O>> = Vec::new();
        let mut i: usize = 0;
        while i < outputs.len()
            invariant
                i <= outputs@.len(),
                are_clones_of(clones@, outputs@.take(i as int)),
            decreases outputs@.len() - i,
        {
            clones.push(outputs[i].clone());
            i += 1;
            assert forall|j: int| 0 <= j < clones@.len() implies (
            #[trigger] clones@[j]).is_clone_of(outputs@.take(i as int)[j]) by {
                if j < i - 1 {
                    assert(outputs@.take(i as int)[j] == outputs@.take(i - 1)[j]);
                }
            }
        }
        assert(outputs@.take(i as int) =~= outputs@);
        Ok(RegionCapturer::Outputs(clones))
    }

    /// What a screenshot of all outputs captures; there has to be one.
    pub fn screenshot_all<F>(&self) -> (res: Result<RegionCapturer<O, F>, WayshotError>)
        ensures
            is_capture_of(res, self.output_infos@),
    {
        self.screenshot_outputs(self.get_all_outputs())
    }
}

/// What a screenshot of one output is, given what came of the copy of its frame: an
/// error that is passed on, a refusal of a frame that is too short, or the frame as
/// an image.
pub open spec fn is_single_output(
    res: Result<DynamicImage, WayshotError>,
    frame_copy: Result<FrameCopy, WayshotError>,
) -> bool {
    match frame_copy {
        Err(error) => res == Err::<DynamicImage, WayshotError>(error),
        Ok(copy) => if copy.complete() {
            res matches Ok(image) && copy.is_shown_by(image)
        } else {
            fails_with(res, ErrorView::BufferTooSmall)
        },
    }
}

impl<O, H> WayshotConnection<O, H> {
    /// The screenshot of one output, from the copy of its frame.
    pub fn screenshot_single_output(frame_copy: Result<FrameCopy, WayshotError>) -> (res: Result<
        DynamicImage,
        WayshotError,
    >)
        ensures
            is_single_output(res, frame_copy),
    {
        match frame_copy {
            Ok(copy) => copy.to_image(),
            Err(error) => Err(error),
        }
    }
}

/// A screenshot of one output shows the whole of it as the compositor copied it:
/// whatever the transform and the scale of the output are, the image has the size of
/// the copied frame and its converted pixels in their places. Where the copy fails,
/// its error is reported.
pub proof fn law_single_output_is_whole<O>(
    frame_copy: Result<FrameCopy, WayshotError>,
    res: Result<DynamicImage, WayshotError>,
    frame_format: FrameFormat,
    frame_data: Seq<u8>,
    converter: Converter,
    output_info: OutputInfo<O>,
)
    requires
        is_single_output(res, frame_copy),
        frame_copy matches Ok(copy) ==> copy.is_of(
            frame_format,
            frame_data,
            converter,
            output_info,
            None,
        ),
    ensures
        frame_copy matches Err(error) ==> res == Err::<DynamicImage, WayshotError>(error),
        frame_copy matches Ok(copy) ==> copy.logical_region == output_info.logical_region,
        frame_copy matches Ok(copy) ==> (res is Ok <==> copy.complete()),
        frame_copy is Ok && res is Err ==> res->Err_0@ == ErrorView::BufferTooSmall,
        res matches Ok(image) ==> {
            let size = frame_format.size;
            &&& image_layout(image) == (
                size.width as int,
                size.height as int,
                converter.color_type() is Rgba8,
            )
            &&& image_pixels(image) == pixels_of(
                converter.converted(frame_data),
                size.width as int,
                size.height as int,
                converter.color_type().channels(),
            )
        },
{
}

/// The pixel lies in the screenshot.
pub open spec fn in_canvas(region: LogicalRegion, scale: int, pixel: (int, int)) -> bool {
    let size = canvas_size(region, scale);
    in_image(size.width as int, size.height as int, pixel)
}

/// `tile` shows the part `part` of the screen, scaled by `scale`; the sides of its
/// image can be expressed, as those of every image.
pub open spec fn shows_part(tile: Tile, part: Region, scale: int) -> bool {
    &&& tile.logical_region.inner == part
    &&& part.size.width * scale <= u32::MAX
    &&& part.size.height * scale <= u32::MAX
    &&& forall|q: (int, int)|
        #![trigger image_pixels(tile.image).contains_key(q)]
        image_pixels(tile.image).contains_key(q) <==> in_image(
            part.size.width * scale,
            part.size.height * scale,
            q,
        )
}

/// The scaled distance has the pixel in it exactly if the distance itself has the
/// point that the pixel shows in it.
proof fn lemma_pixel_in_interval(pixel: int, start: int, len: int, scale: int)
    requires
        scale >= 1,
        len >= 0,
    ensures
        0 <= pixel - start * scale < len * scale <==> start <= pixel / scale < start + len,
{
    let q = pixel / scale;
    let r = pixel % scale;
    assert(pixel == q * scale + r && 0 <= r < scale) by (nonlinear_arith)
        requires
            scale >= 1,
            q == pixel / scale,
            r == pixel % scale,
    ;
    assert((q - start) * scale + r == pixel - start * scale) by (nonlinear_arith)
        requires
            pixel == q * scale + r,
    ;
    let d = q - start;
    assert(0 <= d * scale + r < len * scale <==> 0 <= d < len) by (nonlinear_arith)
        requires
            0 <= r < scale,
            scale >= 1,
            len >= 0,
    ;
}

/// A distance is scaled exactly, or leads beyond every image in its direction.
proof fn lemma_offset(offset: int, scale: int)
    requires
        scale >= 1,
    ensures
        ({
            ||| scaled_offset(offset, scale) == offset * scale
            ||| scaled_offset(offset, scale) >= SIGNIFICANDS && offset * scale >= SIGNIFICANDS
            ||| scaled_offset(offset, scale) <= -SIGNIFICANDS && offset * scale <= -SIGNIFICANDS
        }),
{
    if -SIGNIFICANDS < offset * scale < SIGNIFICANDS {
        law_offsets_are_exact(offset, scale);
    } else if offset >= 0 {
        assert(0 <= offset * scale) by (nonlinear_arith)
            requires
                0 <= offset,
                scale >= 1,
        ;
        lemma_rounding_keeps_large((offset * scale) as nat);
    } else {
        assert(offset * scale <= 0 && -offset * scale == -(offset * scale)) by (nonlinear_arith)
            requires
                offset < 0,
                scale >= 1,
        ;
        lemma_rounding_keeps_large((-offset * scale) as nat);
    }
}

/// [`lemma_pixel_in_interval`], with the distance scaled in double precision.
proof fn lemma_pixel_in_tile(pixel: int, start: int, len: int, scale: int)
    requires
        scale >= 1,
        len >= 0,
        len * scale <= u32::MAX,
        0 <= pixel <= u32::MAX,
    ensures
        0 <= pixel - scaled_offset(start, scale) < len * scale <==> start <= pixel / scale < start
            + len,
        start <= pixel / scale < start + len ==> scaled_offset(start, scale) == start * scale,
{
    lemma_offset(start, scale);
    lemma_pixel_in_interval(pixel, start, len, scale);
}

/// A tile lies over a pixel of the screenshot exactly if the point of the screen
/// that the pixel shows lies in the part that the tile shows; it then has there the
/// colour of the pixel of its image that shows this point.
pub proof fn law_tile_covers_its_part(
    tile: Tile,
    part: Region,
    region: LogicalRegion,
    scale: int,
    pixel: (int, int),
)
    requires
        scale >= 1,
        shows_part(tile, part, scale),
        in_canvas(region, scale, pixel),
    ensures
        tile.covers(region, scale, pixel) <==> part.contains(
            region.inner.left() + pixel.0 / scale,
            region.inner.top() + pixel.1 / scale,
        ),
        tile.covers(region, scale, pixel) ==> tile.color(region, scale, pixel) == image_pixels(
            tile.image,
        )[(
            pixel.0 - (part.left() - region.inner.left()) * scale,
            pixel.1 - (part.top() - region.inner.top()) * scale,
        )],
{
    let dx = part.left() - region.inner.left();
    let dy = part.top() - region.inner.top();
    lemma_pixel_in_tile(pixel.0, dx, part.size.width as int, scale);
    lemma_pixel_in_tile(pixel.1, dy, part.size.height as int, scale);
}

/// Where several tiles lie over a pixel, the last of them is seen.
pub proof fn law_last_tile_is_seen(
    tiles: Seq<Tile>,
    region: LogicalRegion,
    scale: int,
    pixel: (int, int),
    k: int,
)
    requires
        0 <= k < tiles.len(),
        tiles[k].covers(region, scale, pixel),
        forall|l: int| k < l < tiles.len() ==> !(#[trigger] tiles[l]).covers(region, scale, pixel),
    ensures
        composed(tiles, region, scale, pixel) == tiles[k].color(region, scale, pixel),
    decreases tiles.len(),
{
    if k < tiles.len() - 1 {
        let rest = tiles.drop_last();
        assert(!tiles[tiles.len() - 1].covers(region, scale, pixel));
        assert forall|l: int| k < l < rest.len() implies !(#[trigger] rest[l]).covers(
            region,
            scale,
            pixel,
        ) by {
            assert(rest[l] == tiles[l]);
        }
        law_last_tile_is_seen(rest, region, scale, pixel, k);
    }
}

/// The tiles show the parts of a region that lie on outputs, in the order in which
/// a screenshot of the region captures them.
pub open spec fn show_region<O>(
    tiles: Seq<Tile>,
    outputs: Seq<OutputInfo<O>>,
    region: LogicalRegion,
    scale: int,
) -> bool {
    let places = overlapping(outputs, region);
    &&& tiles.len() == places.len()
    &&& forall|k: int|
        0 <= k < tiles.len() ==> exists|part: EmbeddedRegion|
            {
                &&& #[trigger] part.wf()
                &&& part.is_overlap(region, outputs[places[k]].logical_region)
                &&& shows_part(#[trigger] tiles[k], part.in_logical_space(), scale)
            }
}

/// A screenshot of a region has a frame over a pixel exactly where an output has
/// the point of the screen that the pixel shows: nothing that is on an output is
/// missing, and what is on none stays transparent.
pub proof fn law_screenshot_shows_outputs<O>(
    tiles: Seq<Tile>,
    outputs: Seq<OutputInfo<O>>,
    region: LogicalRegion,
    scale: int,
    pixel: (int, int),
)
    requires
        scale >= 1,
        show_region(tiles, outputs, region, scale),
        in_canvas(region, scale, pixel),
    ensures
        (exists|k: int| 0 <= k < tiles.len() && (#[trigger] tiles[k]).covers(region, scale, pixel))
            <==> (exists|i: int|
            0 <= i < outputs.len() && (#[trigger] outputs[i]).logical_region.inner.contains(
                region.inner.left() + pixel.0 / scale,
                region.inner.top() + pixel.1 / scale,
            )),
        (forall|i: int|
            0 <= i < outputs.len() ==> !(#[trigger] outputs[i]).logical_region.inner.contains(
                region.inner.left() + pixel.0 / scale,
                region.inner.top() + pixel.1 / scale,
            )) ==> composed(tiles, region, scale, pixel) == (0u8, 0u8, 0u8, 0u8),
{
    let places = overlapping(outputs, region);
    let x = region.inner.left() + pixel.0 / scale;
    let y = region.inner.top() + pixel.1 / scale;
    law_overlapping_outputs(outputs, region);
    assert(region.inner.contains(x, y)) by {
        lemma_pixel_in_interval(pixel.0, 0, region.inner.size.width as int, scale);
        lemma_pixel_in_interval(pixel.1, 0, region.inner.size.height as int, scale);
    }
    assert forall|k: int| 0 <= k < tiles.len() implies ((#[trigger] tiles[k]).covers(
        region,
        scale,
        pixel,
    ) <==> outputs[places[k]].logical_region.inner.contains(x, y)) by {
        let output = outputs[places[k]].logical_region;
        let part = choose|part: EmbeddedRegion|
            {
                &&& #[trigger] part.wf()
                &&& part.is_overlap(region, output)
                &&& shows_part(tiles[k], part.in_logical_space(), scale)
            };
        law_tile_covers_its_part(tiles[k], part.in_logical_space(), region, scale, pixel);
        law_embedding_is_intersection(part, region, output, x, y);
    }
    if exists|k: int| 0 <= k < tiles.len() && (#[trigger] tiles[k]).covers(region, scale, pixel) {
        let k = choose|k: int|
            0 <= k < tiles.len() && (#[trigger] tiles[k]).covers(region, scale, pixel);
        let i = places[k];
        assert(0 <= i < outputs.len());
        assert(outputs[i].logical_region.inner.contains(x, y));
    }
    if exists|i: int|
        0 <= i < outputs.len() && (#[trigger] outputs[i]).logical_region.inner.contains(x, y) {
        let i = choose|i: int|
            0 <= i < outputs.len() && (#[trigger] outputs[i]).logical_region.inner.contains(x, y);
        law_overlap_is_shared_point(region.inner, outputs[i].logical_region.inner);
        assert(region.inner.contains(x, y) && outputs[i].logical_region.inner.contains(x, y));
        assert(places.contains(i));
        let k = places.index_of(i);
        assert(tiles[k].covers(region, scale, pixel));
    } else {
        lemma_uncovered_is_transparent(tiles, region, scale, pixel);
    }
}

/// The tiles show the whole of each of the outputs.
pub open spec fn show_outputs<O>(
    tiles: Seq<Tile>,
    outputs: Seq<OutputInfo<O>>,
    scale: int,
) -> bool {
    &&& tiles.len() == outputs.len()
    &&& forall|k: int|
        0 <= k < tiles.len() ==> shows_part(
            #[trigger] tiles[k],
            outputs[k].logical_region.inner,
            scale,
        )
}

/// The same holds of a screenshot that is put together from the frames of whole
/// outputs, whichever region it shows: that of these outputs, or one that was
/// selected on the frozen screen.
pub proof fn law_frozen_screenshot_shows_outputs<O>(
    tiles: Seq<Tile>,
    outputs: Seq<OutputInfo<O>>,
    region: LogicalRegion,
    scale: int,
    pixel: (int, int),
)
    requires
        scale >= 1,
        show_outputs(tiles, outputs, scale),
        in_canvas(region, scale, pixel),
    ensures
        forall|k: int|
            0 <= k < tiles.len() ==> ((#[trigger] tiles[k]).covers(region, scale, pixel)
                <==> outputs[k].logical_region.inner.contains(
                region.inner.left() + pixel.0 / scale,
                region.inner.top() + pixel.1 / scale,
            )),
        (forall|i: int|
            0 <= i < outputs.len() ==> !(#[trigger] outputs[i]).logical_region.inner.contains(
                region.inner.left() + pixel.0 / scale,
                region.inner.top() + pixel.1 / scale,
            )) ==> composed(tiles, region, scale, pixel) == (0u8, 0u8, 0u8, 0u8),
{
    let x = region.inner.left() + pixel.0 / scale;
    let y = region.inner.top() + pixel.1 / scale;
    assert forall|k: int| 0 <= k < tiles.len() implies ((#[trigger] tiles[k]).covers(
        region,
        scale,
        pixel,
    ) <==> outputs[k].logical_region.inner.contains(x, y)) by {
        law_tile_covers_its_part(
            tiles[k],
            outputs[k].logical_region.inner,
            region,
            scale,
            pixel,
        );
    }
    if forall|i: int|
        0 <= i < outputs.len() ==> !(#[trigger] outputs[i]).logical_region.inner.contains(x, y) {
        lemma_uncovered_is_transparent(tiles, region, scale, pixel);
    }
}

proof fn lemma_uncovered_is_transparent(
    tiles: Seq<Tile>,
    region: LogicalRegion,
    scale: int,
    pixel: (int, int),
)
    requires
        forall|k: int|
            0 <= k < tiles.len() ==> !(#[trigger] tiles[k]).covers(region, scale, pixel),
    ensures
        composed(tiles, region, scale, pixel) == (0u8, 0u8, 0u8, 0u8),
    decreases tiles.len(),
{
    if tiles.len() > 0 {
        assert(tiles.last() == tiles[tiles.len() - 1]);
        let rest = tiles.drop_last();
        assert forall|k: int| 0 <= k < rest.len() implies !(#[trigger] rest[k]).covers(
            region,
            scale,
            pixel,
        ) by {
            assert(rest[k] == tiles[k]);
        }
        lemma_uncovered_is_transparent(rest, region, scale, pixel);
    }
}

/// A screenshot of whole outputs cuts nothing off: the frame of each output lies in
/// the image, as long as the size of the image can be expressed.
pub proof fn law_whole_outputs_fit<O>(
    region: LogicalRegion,
    outputs: Seq<OutputInfo<O>>,
    i: int,
    tile: Tile,
    scale: int,
)
    requires
        scale >= 1,
        encloses(region.inner, outputs),
        0 <= i < outputs.len(),
        shows_part(tile, outputs[i].logical_region.inner, scale),
        region.inner.size.width * scale <= u32::MAX,
        region.inner.size.height * scale <= u32::MAX,
    ensures
        ({
            let size = canvas_size(region, scale);
            let part = outputs[i].logical_region.inner;
            &&& 0 <= tile.x(region, scale)
            &&& 0 <= tile.y(region, scale)
            &&& tile.x(region, scale) + part.size.width * scale <= size.width
            &&& tile.y(region, scale) + part.size.height * scale <= size.height
        }),
{
    let part = outputs[i].logical_region.inner;
    let dx = part.left() - region.inner.left();
    let dy = part.top() - region.inner.top();
    lemma_interval_fits(dx, part.size.width as int, region.inner.size.width as int, scale);
    lemma_interval_fits(dy, part.size.height as int, region.inner.size.height as int, scale);
    lemma_offset(dx, scale);
    lemma_offset(dy, scale);
}

proof fn lemma_interval_fits(start: int, len: int, whole: int, scale: int)
    requires
        scale >= 1,
        0 <= start,
        start + len <= whole,
    ensures
        0 <= start * scale,
        start * scale + len * scale <= whole * scale,
{
    assert(0 <= start * scale) by (nonlinear_arith)
        requires
            0 <= start,
            scale >= 1,
    ;
    assert(start * scale + len * scale <= whole * scale) by (nonlinear_arith)
        requires
            start + len <= whole,
            scale >= 1,
    ;
}

/// Where a tile lies over a pixel can be computed without rounding.
proof fn lemma_exact_place(tile: Tile, region: LogicalRegion, scale: int, pixel: (int, int))
    requires
        scale >= 1,
        0 <= pixel.0 <= u32::MAX,
        0 <= pixel.1 <= u32::MAX,
        forall|q: (int, int)| #[trigger]
            image_pixels(tile.image).contains_key(q) ==> 0 <= q.0 <= u32::MAX && 0 <= q.1
                <= u32::MAX,
    ensures
        ({
            let place = (
                pixel.0 - (tile.logical_region.inner.position.x - region.inner.position.x) * scale,
                pixel.1 - (tile.logical_region.inner.position.y - region.inner.position.y) * scale,
            );
            &&& tile.covers(region, scale, pixel) <==> image_pixels(tile.image).contains_key(place)
            &&& tile.covers(region, scale, pixel) ==> tile.color(region, scale, pixel)
                == image_pixels(tile.image)[place]
        }),
{
    lemma_offset(tile.logical_region.inner.left() - region.inner.left(), scale);
    lemma_offset(tile.logical_region.inner.top() - region.inner.top(), scale);
}

/// What a screenshot shows, pixel by pixel. It has as many pixels as its region, scaled.
/// Each has the colour of the last of all given tiles that lies over it, where the corner
/// of a tile lies at the distance of its region from that of the screenshot, scaled; and
/// it is transparent only if no tile lies over it. How large a tile is does not matter.
///
/// `image` is the screenshot that was put together from `tiles`; the sides of the tiles'
/// images can be expressed, as those of every image.
pub proof fn law_screenshot_shows_last_tile(
    image: DynamicImage,
    tiles: Seq<Tile>,
    region: LogicalRegion,
    scale: int,
    pixel: (int, int),
)
    requires
        scale >= 1,
        image_pixels(image) == composition(tiles, region, scale),
        forall|k: int, q: (int, int)|
            0 <= k < tiles.len() && #[trigger] image_pixels(tiles[k].image).contains_key(q) ==> 0
                <= q.0 <= u32::MAX && 0 <= q.1 <= u32::MAX,
    ensures
        image_pixels(image).contains_key(pixel) <==> {
            &&& 0 <= pixel.0 < region.inner.size.width * scale
            &&& 0 <= pixel.1 < region.inner.size.height * scale
            &&& pixel.0 < u32::MAX
            &&& pixel.1 < u32::MAX
        },
        image_pixels(image).contains_key(pixel) ==> {
            ||| exists|k: int|
                {
                    let place = (
                        pixel.0 - ((#[trigger] tiles[k]).logical_region.inner.position.x
                            - region.inner.position.x) * scale,
                        pixel.1 - (tiles[k].logical_region.inner.position.y
                            - region.inner.position.y) * scale,
                    );
                    &&& 0 <= k < tiles.len()
                    &&& image_pixels(tiles[k].image).contains_key(place)
                    &&& image_pixels(image)[pixel] == image_pixels(tiles[k].image)[place]
                    &&& forall|l: int|
                        k < l < tiles.len() ==> !image_pixels(
                            (#[trigger] tiles[l]).image,
                        ).contains_key(
                            (
                                pixel.0 - (tiles[l].logical_region.inner.position.x
                                    - region.inner.position.x) * scale,
                                pixel.1 - (tiles[l].logical_region.inner.position.y
                                    - region.inner.position.y) * scale,
                            ),
                        )
                }
            ||| {
                &&& image_pixels(image)[pixel] == (0u8, 0u8, 0u8, 0u8)
                &&& forall|l: int|
                    0 <= l < tiles.len() ==> !image_pixels((#[trigger] tiles[l]).image).contains_key(
                        (
                            pixel.0 - (tiles[l].logical_region.inner.position.x
                                - region.inner.position.x) * scale,
                            pixel.1 - (tiles[l].logical_region.inner.position.y
                                - region.inner.position.y) * scale,
                        ),
                    )
            }
        },
{
    if image_pixels(image).contains_key(pixel) {
        assert forall|l: int| 0 <= l < tiles.len() implies {
            let place = (
                pixel.0 - ((#[trigger] tiles[l]).logical_region.inner.position.x
                    - region.inner.position.x) * scale,
                pixel.1 - (tiles[l].logical_region.inner.position.y - region.inner.position.y)
                    * scale,
            );
            &&& tiles[l].covers(region, scale, pixel) <==> image_pixels(
                tiles[l].image,
            ).contains_key(place)
            &&& tiles[l].covers(region, scale, pixel) ==> tiles[l].color(region, scale, pixel)
                == image_pixels(tiles[l].image)[place]
        } by {
            lemma_exact_place(tiles[l], region, scale, pixel);
        }
        if exists|k: int| 0 <= k < tiles.len() && (#[trigger] tiles[k]).covers(region, scale, pixel) {
            let first = choose|k: int|
                0 <= k < tiles.len() && (#[trigger] tiles[k]).covers(region, scale, pixel);
            let k = lemma_last_cover(tiles, region, scale, pixel, first);
            law_last_tile_is_seen(tiles, region, scale, pixel, k);
            assert(tiles[k].covers(region, scale, pixel));
        } else {
            lemma_uncovered_is_transparent(tiles, region, scale, pixel);
        }
    }
}

/// Of the tiles that lie over a pixel, one is the last.
proof fn lemma_last_cover(
    tiles: Seq<Tile>,
    region: LogicalRegion,
    scale: int,
    pixel: (int, int),
    k: int,
) -> (last: int)
    requires
        0 <= k < tiles.len(),
        tiles[k].covers(region, scale, pixel),
    ensures
        k <= last < tiles.len(),
        tiles[last].covers(region, scale, pixel),
        forall|l: int|
            last < l < tiles.len() ==> !(#[trigger] tiles[l]).covers(region, scale, pixel),
    decreases tiles.len() - k,
{
    if exists|l: int| k < l < tiles.len() && (#[trigger] tiles[l]).covers(region, scale, pixel) {
        let next = choose|l: int|
            k < l < tiles.len() && (#[trigger] tiles[l]).covers(region, scale, pixel);
        lemma_last_cover(tiles, region, scale, pixel, next)
    } else {
        k
    }
}

/// A frame that reaches over the whole of the selected region leaves no gap: where no
/// later frame lies over it, every pixel of the screenshot is the one that the frame has
/// there.
///
/// `image` is the screenshot of `region` that was put together from `tiles`, and `k` the
/// place of the frame.
pub proof fn law_frame_fills_the_selection(
    image: DynamicImage,
    tiles: Seq<Tile>,
    region: LogicalRegion,
    scale: int,
    pixel: (int, int),
    k: int,
)
    requires
        scale >= 1,
        image_pixels(image) == composition(tiles, region, scale),
        0 <= k < tiles.len(),
        shows_part(tiles[k], tiles[k].logical_region.inner, scale),
        ({
            let frame = tiles[k].logical_region.inner;
            &&& frame.position.x <= region.inner.position.x
            &&& frame.position.y <= region.inner.position.y
            &&& region.inner.position.x + region.inner.size.width <= frame.position.x
                + frame.size.width
            &&& region.inner.position.y + region.inner.size.height <= frame.position.y
                + frame.size.height
        }),
        image_pixels(image).contains_key(pixel),
    ensures
        tiles[k].covers(region, scale, pixel),
        (forall|l: int|
            k < l < tiles.len() ==> !(#[trigger] tiles[l]).covers(region, scale, pixel))
            ==> image_pixels(image)[pixel] == image_pixels(tiles[k].image)[(
            pixel.0 + (region.inner.position.x - tiles[k].logical_region.inner.position.x) * scale,
            pixel.1 + (region.inner.position.y - tiles[k].logical_region.inner.position.y) * scale,
        )],
{
    let frame = tiles[k].logical_region.inner;
    lemma_pixel_in_interval(pixel.0, 0, region.inner.size.width as int, scale);
    lemma_pixel_in_interval(pixel.1, 0, region.inner.size.height as int, scale);
    law_tile_covers_its_part(tiles[k], frame, region, scale, pixel);
    let dx = frame.left() - region.inner.left();
    let dy = frame.top() - region.inner.top();
    assert(-dx * scale == -(dx * scale) && -dy * scale == -(dy * scale)) by (nonlinear_arith);
    if forall|l: int|
        k < l < tiles.len() ==> !(#[trigger] tiles[l]).covers(region, scale, pixel) {
        law_last_tile_is_seen(tiles, region, scale, pixel, k);
    }
}

/// A screenshot has the size of its region, scaled; a side that cannot be expressed is
/// the longest that can.
pub proof fn law_screenshot_has_the_size_of_its_region(region: LogicalRegion, scale: int)
    requires
        scale >= 1,
    ensures
        ({
            let size = canvas_size(region, scale);
            let width = region.inner.size.width * scale;
            let height = region.inner.size.height * scale;
            &&& width <= u32::MAX ==> size.width == width
            &&& width > u32::MAX ==> size.width == u32::MAX
            &&& height <= u32::MAX ==> size.height == height
            &&& height > u32::MAX ==> size.height == u32::MAX
        }),
{
    assert(0 <= region.inner.size.width * scale) by (nonlinear_arith)
        requires
            scale >= 1,
    ;
    assert(0 <= region.inner.size.height * scale) by (nonlinear_arith)
        requires
            scale >= 1,
    ;
}

/// A screenshot that is not complete reports the error of the first frame that could not
/// be had: all frames before that one could be.
pub proof fn law_first_error_is_reported(
    error: WayshotError,
    tiles: Seq<Result<Tile, WayshotError>>,
    i: int,
)
    requires
        0 <= i < tiles.len(),
        tiles[i] is Err,
        forall|j: int| 0 <= j < i ==> (#[trigger] tiles[j]) is Ok,
    ensures
        !all_ok(tiles),
        is_first_error(error, tiles) <==> tiles[i] == Err::<Tile, WayshotError>(error),
{
    assert(!(tiles[i] is Ok));
    if is_first_error(error, tiles) {
        let k = choose|k: int|
            {
                &&& 0 <= k < tiles.len()
                &&& #[trigger] tiles[k] == Err::<Tile, WayshotError>(error)
                &&& forall|j: int| 0 <= j < k ==> (#[trigger] tiles[j]) is Ok
            };
        assert(k == i) by {
            if k < i {
                assert(tiles[k] is Ok);
            }
            if i < k {
                assert(tiles[i] is Ok);
            }
        }
    }
}

/// What is captured for a screenshot of whole outputs, and for a frozen screen: each of
/// the given outputs, or each that is known, once, in order, and the whole of it.
pub proof fn law_whole_outputs_are_captured<O, F>(
    capturer: RegionCapturer<O, F>,
    known: Seq<OutputInfo<O>>,
    frames: Seq<(&OutputInfo<O>, Option<EmbeddedRegion>)>,
    i: int,
)
    requires
        capturer.is_plan(known, frames),
    ensures
        capturer matches RegionCapturer::Outputs(outputs) ==> {
            &&& frames.len() == outputs@.len()
            &&& 0 <= i < frames.len() ==> *frames[i].0 == outputs@[i] && frames[i].1 is None
        },
        capturer is Freeze ==> {
            &&& frames.len() == known.len()
            &&& 0 <= i < frames.len() ==> *frames[i].0 == known[i] && frames[i].1 is None
        },
{
}

/// What is captured for a screenshot of a region: every known output that has a point of
/// the region, and no other; and of each the part that the region has in common with it.
/// `(x, y)` is a point of the compositor's space.
pub proof fn law_parts_of_a_region_are_captured<O, F>(
    capturer: RegionCapturer<O, F>,
    known: Seq<OutputInfo<O>>,
    frames: Seq<(&OutputInfo<O>, Option<EmbeddedRegion>)>,
    region: LogicalRegion,
    x: int,
    y: int,
)
    requires
        capturer.is_plan(known, frames),
        capturer == RegionCapturer::<O, F>::Region(region),
    ensures
        forall|k: int|
            0 <= k < known.len() && region.inner.contains(x, y) && (
            #[trigger] known[k]).logical_region.inner.contains(x, y) ==> exists|i: int|
                0 <= i < frames.len() && *(#[trigger] frames[i]).0 == known[k],
        forall|i: int|
            0 <= i < frames.len() ==> {
                let output = *(#[trigger] frames[i]).0;
                &&& known.contains(output)
                &&& frames[i].1 matches Some(part) && {
                    &&& part.relative_to == output.logical_region
                    &&& part.inner.size.width > 0 && part.inner.size.height > 0
                    &&& part.in_logical_space().contains(x, y) <==> region.inner.contains(x, y)
                        && output.logical_region.inner.contains(x, y)
                }
            },
{
    let places = overlapping(known, region);
    law_overlapping_outputs(known, region);
    assert forall|k: int|
        0 <= k < known.len() && region.inner.contains(x, y) && (
        #[trigger] known[k]).logical_region.inner.contains(x, y) implies exists|i: int|
        0 <= i < frames.len() && *(#[trigger] frames[i]).0 == known[k] by {
        law_overlap_is_shared_point(region.inner, known[k].logical_region.inner);
        assert(places.contains(k));
        let i = places.index_of(k);
        assert(is_part(frames[i], region, known[places[i]]));
    }
    assert forall|i: int| 0 <= i < frames.len() implies {
        let output = *(#[trigger] frames[i]).0;
        &&& known.contains(output)
        &&& frames[i].1 matches Some(part) && {
            &&& part.relative_to == output.logical_region
            &&& part.inner.size.width > 0 && part.inner.size.height > 0
            &&& part.in_logical_space().contains(x, y) <==> region.inner.contains(x, y)
                && output.logical_region.inner.contains(x, y)
        }
    } by {
        assert(is_part(frames[i], region, known[places[i]]));
        let output = known[places[i]];
        let part = frames[i].1->0;
        assert(places.contains(places[i]));
        assert(region.inner.overlaps(output.logical_region.inner));
        law_embedding_is_intersection(part, region, output.logical_region, x, y);
        law_embedded_edges(part, region, output.logical_region);
    }
}

/// The outputs of a region are captured in the order in which they are known: there are
/// places, one after the other, at which the captured outputs stand among the known ones.
pub proof fn law_parts_are_captured_in_order<O, F>(
    capturer: RegionCapturer<O, F>,
    known: Seq<OutputInfo<O>>,
    frames: Seq<(&OutputInfo<O>, Option<EmbeddedRegion>)>,
) -> (places: Seq<int>)
    requires
        capturer.is_plan(known, frames),
        capturer is Region,
    ensures
        places.len() == frames.len(),
        forall|i: int|
            0 <= i < places.len() ==> 0 <= #[trigger] places[i] < known.len() && *frames[i].0
                == known[places[i]],
        forall|i: int, j: int|
            0 <= i < j < places.len() ==> #[trigger] places[i] < #[trigger] places[j],
{
    let region = capturer->Region_0;
    let places = overlapping(known, region);
    law_overlapping_outputs(known, region);
    assert forall|i: int| 0 <= i < places.len() implies 0 <= #[trigger] places[i] < known.len()
        && *frames[i].0 == known[places[i]] by {
        assert(is_part(frames[i], region, known[places[i]]));
    }
    places
}

/// The scale of a screenshot is the largest that an output asks for: no captured output
/// asks for more, one asks for it unless it is one, and there is only one such scale.
pub proof fn law_scale_is_the_largest<O>(
    scale: int,
    other: int,
    frames: Seq<(&OutputInfo<O>, Option<EmbeddedRegion>)>,
    i: int,
)
    requires
        is_max_scale(scale, frames),
    ensures
        scale >= 1,
        0 <= i < frames.len() ==> frames[i].0.scale <= scale,
        scale > 1 ==> exists|j: int|
            0 <= j < frames.len() && (#[trigger] frames[j]).0.scale == scale,
        is_max_scale(other, frames) ==> other == scale,
{
    if scale > 1 {
        let j = choose|j: int| 0 <= j < frames.len() && (#[trigger] frames[j]).0.scale == scale;
        if is_max_scale(other, frames) {
            assert(frames[j].0.scale <= other);
        }
    }
    if is_max_scale(other, frames) && other > 1 {
        let j = choose|j: int| 0 <= j < frames.len() && (#[trigger] frames[j]).0.scale == other;
        assert(frames[j].0.scale <= scale);
    }
}

/// A screenshot of outputs captures all of them as they are given, in order, and is
/// refused where there are none.
pub proof fn law_all_given_outputs_are_captured<O: Clone, F>(
    res: Result<RegionCapturer<O, F>, WayshotError>,
    outputs: Seq<OutputInfo<O>>,
    i: int,
)
    requires
        is_capture_of(res, outputs),
    ensures
        outputs.len() == 0 ==> res is Err && res->Err_0@ == ErrorView::NoOutputs,
        outputs.len() > 0 ==> (res matches Ok(RegionCapturer::Outputs(clones)) && {
            &&& clones@.len() == outputs.len()
            &&& 0 <= i < outputs.len() ==> {
                &&& clones@[i].logical_region == outputs[i].logical_region
                &&& clones@[i].transform == outputs[i].transform
                &&& clones@[i].physical_size == outputs[i].physical_size
                &&& clones@[i].scale == outputs[i].scale
                &&& clones@[i].name@ == outputs[i].name@
                &&& cloned(outputs[i].output, clones@[i].output)
            }
        }),
{
    if outputs.len() > 0 && 0 <= i < outputs.len() {
        let clones = res->Ok_0->Outputs_0@;
        assert(clones[i].is_clone_of(outputs[i]));
    }
}

/// A frame that can be had is one that the capture may return.
pub proof fn law_copies_come_of_captures<
    O,
    T,
    E,
    F: Fn(&OutputInfo<O>, Option<EmbeddedRegion>) -> Result<T, E>,
>(capture: F, frame: (&OutputInfo<O>, Option<EmbeddedRegion>)) -> (copy: T)
    requires
        can_be_copied::<O, T, E, F>(capture, frame),
    ensures
        call_ensures(capture, (frame.0, frame.1), Ok::<T, E>(copy)),
{
    choose|copy: T| #[trigger] call_ensures(capture, (frame.0, frame.1), Ok::<T, E>(copy))
}

} // verus!
