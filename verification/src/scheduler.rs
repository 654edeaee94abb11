//! The row scheduler: which rows of the image each worker renders.

use crate::vector::Color;
use vstd::prelude::*;

verus! {

/// How many rows a task gets where `height` rows are shared among `cores`
/// workers: the quotient, rounded up.
pub open spec fn rows_per_task(height: int, cores: int) -> int {
    (height + cores - 1) / cores
}

/// How many tasks there are: as many as it takes to cover every row.
pub open spec fn task_count(height: int, cores: int) -> int {
    if height <= 0 {
        0
    } else {
        (height + rows_per_task(height, cores) - 1) / rows_per_task(height, cores)
    }
}

/// The rows of the task `k`: from the first up to, but not including, the
/// second.
pub open spec fn task_rows(height: int, cores: int, k: int) -> (int, int) {
    let per = rows_per_task(height, cores);
    (k * per, if (k + 1) * per < height { (k + 1) * per } else { height })
}

/// The ranges are the rows of the image, shared among `cores` workers.
pub open spec fn is_partition(ranges: Seq<(i32, i32)>, height: int, cores: int) -> bool {
    &&& ranges.len() == task_count(height, cores)
    &&& forall|k: int|
        0 <= k < ranges.len() ==> (#[trigger] ranges[k]).0 == task_rows(height, cores, k).0 && ranges[k].1
            == task_rows(height, cores, k).1
}

/// The number of pixels in the rows of the first `k` ranges.
pub open spec fn pixels_in(ranges: Seq<(i32, i32)>, width: int, k: int) -> int
    decreases k,
{
    if k <= 0 {
        0
    } else {
        pixels_in(ranges, width, k - 1) + (ranges[k - 1].1 - ranges[k - 1].0) * width
    }
}

/// The place in the pixel buffer of the pixel in column `i` of row `j`.
pub open spec fn pixel_at(width: int, i: int, j: int) -> int {
    j * width + i
}

/// The task with the index `k` renders the pixel with the index `index`.
pub open spec fn renders(ranges: Seq<(i32, i32)>, width: int, k: int, index: int) -> bool {
    &&& 0 <= k < ranges.len()
    &&& exists|i: int, j: int|
        0 <= i < width && ranges[k].0 <= j < ranges[k].1 && index == #[trigger] pixel_at(width, i, j)
}

/// `num_cpus::get`: the number of processors that this process may use, as
/// the system reports it.
#[verifier::external_body]
fn available_cores() -> usize {
    num_cpus::get()
}

/// The quotient rounded up is the least number of rows with which `cores`
/// tasks cover `height` rows.
pub proof fn lemma_rows_per_task(height: int, cores: int)
    requires
        height > 0,
        cores > 0,
    ensures
        1 <= rows_per_task(height, cores) <= height,
        rows_per_task(height, cores) * cores >= height,
        (rows_per_task(height, cores) - 1) * cores < height,
        1 <= task_count(height, cores) <= cores,
        (task_count(height, cores) - 1) * rows_per_task(height, cores) < height,
        task_count(height, cores) * rows_per_task(height, cores) >= height,
{
    let per = rows_per_task(height, cores);
    vstd::arithmetic::div_mod::lemma_fundamental_div_mod(height + cores - 1, cores);
    vstd::arithmetic::div_mod::lemma_mod_bound(height + cores - 1, cores);
    assert(per >= 1) by (nonlinear_arith)
        requires
            cores * per >= height,
            height > 0,
            cores > 0,
    ;
    assert(per <= height) by (nonlinear_arith)
        requires
            cores * per <= height + cores - 1,
            height >= 1,
            cores >= 1,
            per >= 1,
    ;
    assert((per - 1) * cores == cores * per - cores) by (nonlinear_arith);
    let count = task_count(height, cores);
    vstd::arithmetic::div_mod::lemma_fundamental_div_mod(height + per - 1, per);
    vstd::arithmetic::div_mod::lemma_mod_bound(height + per - 1, per);
    assert((count - 1) * per == per * count - per) by (nonlinear_arith);
    assert(count >= 1) by (nonlinear_arith)
        requires
            per * count >= height,
            height > 0,
            per > 0,
    ;
    assert(count <= cores) by (nonlinear_arith)
        requires
            per * count <= height + per - 1,
            per * cores >= height,
            per >= 1,
            count >= 1,
            cores >= 1,
    ;
}

/// The rows of the image, shared among `cores` workers: each task gets the
/// same number of rows, one after the other from the top, the last task
/// what is left, and tasks for which no row is left are not made.
pub fn task_ranges(image_height: i32, cores: i32) -> (ranges: Vec<(i32, i32)>)
    requires
        cores > 0,
    ensures
        is_partition(ranges@, image_height as int, cores as int),
{
    let mut ranges: Vec<(i32, i32)> = Vec::new();
    if image_height <= 0 {
        return ranges;
    }
    proof {
        lemma_rows_per_task(image_height as int, cores as int);
    }
    let height: i64 = image_height as i64;
    let per: i64 = (height + cores as i64 - 1) / (cores as i64);
    let ghost count = task_count(image_height as int, cores as int);
    let mut task_id: i64 = 0;
    while task_id < cores as i64
        invariant
            image_height > 0,
            cores > 0,
            height == image_height,
            per == rows_per_task(image_height as int, cores as int),
            1 <= per <= height,
            count == task_count(image_height as int, cores as int),
            1 <= count <= cores,
            (count - 1) * per < height,
            count * per >= height,
            0 <= task_id <= cores,
            task_id <= count,
            ranges@.len() == task_id,
            forall|k: int|
                0 <= k < ranges@.len() ==> (#[trigger] ranges@[k]).0 == task_rows(
                    image_height as int,
                    cores as int,
                    k,
                ).0 && ranges@[k].1 == task_rows(image_height as int, cores as int, k).1,
        ensures
            ranges@.len() == count,
            forall|k: int|
                0 <= k < ranges@.len() ==> (#[trigger] ranges@[k]).0 == task_rows(
                    image_height as int,
                    cores as int,
                    k,
                ).0 && ranges@[k].1 == task_rows(image_height as int, cores as int, k).1,
        decreases cores - task_id,
    {
        assert(task_id * per <= cores * height) by (nonlinear_arith)
            requires
                0 <= task_id <= cores,
                1 <= per <= height,
        ;
        assert(cores * height <= 0x7FFF_FFFF * 0x7FFF_FFFF) by (nonlinear_arith)
            requires
                0 < cores <= 0x7FFF_FFFF,
                0 < height <= 0x7FFF_FFFF,
        ;
        let start_row: i64 = task_id * per;
        if start_row >= height {
            assert(task_id >= count) by (nonlinear_arith)
                requires
                    task_id * per >= height,
                    (count - 1) * per < height,
                    per >= 1,
            ;
            break;
        }
        assert(task_id < count) by (nonlinear_arith)
            requires
                task_id * per < height,
                count * per >= height,
                per >= 1,
        ;
        assert((task_id + 1) * per == task_id * per + per) by (nonlinear_arith);
        let next: i64 = (task_id + 1) * per;
        let end_row: i64 = if next < height {
            next
        } else {
            height
        };
        ranges.push((start_row as i32, end_row as i32));
        task_id = task_id + 1;
    }
    ranges
}

/// Puts the pixels of a task, which begin with the row `start_row`, at
/// their places in the image. No other pixel of the image is touched.
pub fn place_slice(pixels: &mut Vec<Color>, image_width: i32, start_row: i32, slice: &Vec<Color>)
    requires
        0 <= image_width,
        0 <= start_row,
        start_row * image_width + slice@.len() <= old(pixels)@.len(),
    ensures
        final(pixels)@.len() == old(pixels)@.len(),
        forall|k: int|
            0 <= k < slice@.len() ==> #[trigger] final(pixels)@[start_row * image_width + k] == slice@[k],
        forall|index: int|
            0 <= index < start_row * image_width || start_row * image_width + slice@.len() <= index < old(
                pixels,
            )@.len() ==> #[trigger] final(pixels)@[index] == old(pixels)@[index],
{
    assert(0 <= start_row * image_width) by (nonlinear_arith)
        requires
            0 <= start_row,
            0 <= image_width,
    ;
    let total = pixels.len();
    let rows = start_row as usize;
    let width = image_width as usize;
    assert(rows * width == start_row * image_width) by (nonlinear_arith)
        requires
            rows == start_row,
            width == image_width,
    ;
    let first: usize = rows * width;
    let mut k: usize = 0;
    while k < slice.len()
        invariant
            first == start_row * image_width,
            first + slice@.len() <= pixels@.len(),
            pixels@.len() == old(pixels)@.len(),
            pixels@.len() == total,
            k <= slice@.len(),
            forall|j: int| 0 <= j < k ==> #[trigger] pixels@[first + j] == slice@[j],
            forall|index: int|
                0 <= index < first || first + k <= index < pixels@.len() ==> #[trigger] pixels@[index] == old(
                    pixels,
                )@[index],
        decreases slice@.len() - k,
    {
        pixels.set(first + k, slice[k]);
        k = k + 1;
    }
}

/// The rows of the image, shared among as many workers as the machine has
/// processors for them.
pub fn plan_tasks(image_height: i32) -> (ranges: Vec<(i32, i32)>)
    ensures
        exists|cores: int| 0 < cores <= i32::MAX && #[trigger] is_partition(ranges@, image_height as int, cores),
{
    let found = available_cores();
    let cores: i32 = if found == 0 {
        1
    } else if found > 0x7FFF_FFFF {
        0x7FFF_FFFF
    } else {
        found as i32
    };
    let ranges = task_ranges(image_height, cores);
    ranges
}

/// The rows of a task begin where those of the task before end, and the rows
/// of the last task end with the image.
pub proof fn lemma_task_rows(height: int, cores: int, k: int)
    requires
        height > 0,
        cores > 0,
        0 <= k < task_count(height, cores),
    ensures
        0 <= task_rows(height, cores, k).0 < task_rows(height, cores, k).1 <= height,
        task_rows(height, cores, k).1 - task_rows(height, cores, k).0 <= rows_per_task(height, cores),
        k == 0 ==> task_rows(height, cores, k).0 == 0,
        k > 0 ==> task_rows(height, cores, k).0 == task_rows(height, cores, k - 1).1,
        k == task_count(height, cores) - 1 ==> task_rows(height, cores, k).1 == height,
{
    lemma_rows_per_task(height, cores);
    let per = rows_per_task(height, cores);
    let count = task_count(height, cores);
    assert(0 <= k * per <= (count - 1) * per) by (nonlinear_arith)
        requires
            0 <= k <= count - 1,
            per >= 1,
    ;
    assert((k + 1) * per == k * per + per) by (nonlinear_arith);
    assert((k - 1 + 1) * per == k * per);
    if k > 0 {
        assert(k * per < height);
    }
}

/// The ranges of a partition follow one another from the first row to the
/// last, and none is empty.
pub proof fn lemma_ranges_are_contiguous(ranges: Seq<(i32, i32)>, height: int, cores: int)
    requires
        is_partition(ranges, height, cores),
        height > 0,
        cores > 0,
    ensures
        ranges.len() >= 1,
        ranges[0].0 == 0,
        ranges[ranges.len() - 1].1 == height,
        forall|k: int| 0 <= k < ranges.len() ==> (#[trigger] ranges[k]).0 < ranges[k].1,
        forall|k: int| 0 < k < ranges.len() ==> (#[trigger] ranges[k]).0 == ranges[k - 1].1,
{
    lemma_rows_per_task(height, cores);
    let count = task_count(height, cores);
    assert forall|k: int| 0 <= k < ranges.len() implies (#[trigger] ranges[k]).0 < ranges[k].1 by {
        lemma_task_rows(height, cores, k);
    }
    assert forall|k: int| 0 < k < ranges.len() implies (#[trigger] ranges[k]).0 == ranges[k - 1].1 by {
        lemma_task_rows(height, cores, k);
    }
    lemma_task_rows(height, cores, 0);
    lemma_task_rows(height, cores, count - 1);
}

/// The pixels of the first `k` ranges are those of the rows above the end
/// of the last of them.
proof fn lemma_pixels_in_prefix(ranges: Seq<(i32, i32)>, height: int, cores: int, width: int, k: int)
    requires
        is_partition(ranges, height, cores),
        height > 0,
        cores > 0,
        1 <= k <= ranges.len(),
    ensures
        pixels_in(ranges, width, k) == ranges[k - 1].1 * width,
    decreases k,
{
    lemma_ranges_are_contiguous(ranges, height, cores);
    if k == 1 {
        assert(pixels_in(ranges, width, 0) == 0);
    } else {
        lemma_pixels_in_prefix(ranges, height, cores, width, k - 1);
        assert(ranges[k - 2].1 * width + (ranges[k - 1].1 - ranges[k - 1].0) * width == ranges[k - 1].1
            * width) by (nonlinear_arith)
            requires
                ranges[k - 1].0 == ranges[k - 2].1,
        ;
    }
}

/// The tasks render as many pixels together as the image has.
pub proof fn lemma_tasks_render_every_pixel(ranges: Seq<(i32, i32)>, height: int, cores: int, width: int)
    requires
        is_partition(ranges, height, cores),
        height >= 0,
        cores > 0,
    ensures
        pixels_in(ranges, width, ranges.len() as int) == width * height,
{
    if height > 0 {
        lemma_ranges_are_contiguous(ranges, height, cores);
        lemma_pixels_in_prefix(ranges, height, cores, width, ranges.len() as int);
        assert(height * width == width * height) by (nonlinear_arith);
    } else {
        assert(width * height == 0) by (nonlinear_arith)
            requires
                height == 0,
        ;
    }
}

/// Every pixel of the image is rendered by one task and no other, and by
/// that task at one column and row only.
pub proof fn lemma_each_pixel_has_one_task(
    ranges: Seq<(i32, i32)>,
    height: int,
    cores: int,
    width: int,
    index: int,
) -> (k: int)
    requires
        is_partition(ranges, height, cores),
        height > 0,
        cores > 0,
        width > 0,
        0 <= index < width * height,
    ensures
        renders(ranges, width, k, index),
        forall|other: int| renders(ranges, width, other, index) ==> other == k,
        forall|i: int, j: int, i2: int, j2: int|
            0 <= i < width && 0 <= i2 < width && index == #[trigger] pixel_at(width, i, j) && index
                == #[trigger] pixel_at(width, i2, j2) ==> i == i2 && j == j2,
{
    lemma_rows_per_task(height, cores);
    lemma_ranges_are_contiguous(ranges, height, cores);
    let per = rows_per_task(height, cores);
    let count = task_count(height, cores);
    let j = index / width;
    let i = index % width;
    vstd::arithmetic::div_mod::lemma_fundamental_div_mod(index, width);
    vstd::arithmetic::div_mod::lemma_mod_bound(index, width);
    assert(0 <= j < height) by (nonlinear_arith)
        requires
            0 <= index < width * height,
            index == j * width + i,
            0 <= i < width,
            width > 0,
    ;
    let k = j / per;
    vstd::arithmetic::div_mod::lemma_fundamental_div_mod(j, per);
    vstd::arithmetic::div_mod::lemma_mod_bound(j, per);
    assert(per * k == k * per) by (nonlinear_arith);
    assert((k + 1) * per == k * per + per) by (nonlinear_arith);
    assert(0 <= k < count) by (nonlinear_arith)
        requires
            k * per <= j,
            j < height,
            0 <= j,
            j < k * per + per,
            (count - 1) * per < height,
            count * per >= height,
            per >= 1,
            count >= 1,
    ;
    assert(index == pixel_at(width, i, j));
    assert forall|i1: int, j1: int, i2: int, j2: int|
        0 <= i1 < width && 0 <= i2 < width && index == #[trigger] pixel_at(width, i1, j1) && index
            == #[trigger] pixel_at(width, i2, j2) implies i1 == i2 && j1 == j2 by {
        vstd::arithmetic::div_mod::lemma_fundamental_div_mod_converse(index, width, j1, i1);
        vstd::arithmetic::div_mod::lemma_fundamental_div_mod_converse(index, width, j2, i2);
    }
    assert forall|other: int| renders(ranges, width, other, index) implies other == k by {
        let (i2, j2) = choose|i2: int, j2: int|
            0 <= i2 < width && ranges[other].0 <= j2 < ranges[other].1 && index == #[trigger] pixel_at(
                width,
                i2,
                j2,
            );
        vstd::arithmetic::div_mod::lemma_fundamental_div_mod_converse(index, width, j2, i2);
        assert(ranges[other].0 == task_rows(height, cores, other).0 && ranges[other].1 == task_rows(
            height,
            cores,
            other,
        ).1);
        assert((other + 1) * per == other * per + per) by (nonlinear_arith);
        assert(other == k) by (nonlinear_arith)
            requires
                other * per <= j,
                j < other * per + per,
                k * per <= j,
                j < k * per + per,
                per >= 1,
        ;
    }
    k
}

} // verus!
