//! What the progress monitor shows of a render.
//!
//! Each worker counts the pixels that it has rendered. The monitor shows,
//! for each worker and for all of them together, how many of a hundred that
//! is, and how much time has passed.

use crate::text::{decimal, padded, push_decimal, push_padded};
use vstd::prelude::*;

verus! {

/// How far each task has come, and how far it has to go.
pub struct ProgressTracker {
    /// The pixels that each task has rendered so far.
    pub task_progress: Vec<usize>,
    /// The pixels that each task has to render.
    pub total_pixels_per_task: Vec<usize>,
    pub task_count: usize,
}

/// How many of a hundred `completed` is of `total`, rounded down; 0 where
/// `total` is 0.
pub open spec fn percentage(completed: int, total: int) -> int {
    if total > 0 {
        (completed * 100) / total
    } else {
        0
    }
}

/// The sum of the first `k` numbers.
pub open spec fn sum_of(numbers: Seq<usize>, k: int) -> int
    decreases k,
{
    if k <= 0 {
        0
    } else {
        sum_of(numbers, k - 1) + numbers[k - 1]
    }
}

/// ` | `, which stands between the parts of the line.
pub open spec fn separator() -> Seq<u8> {
    seq![32u8, 124u8, 32u8]
}

/// ` | Overall: `
pub open spec fn overall_label() -> Seq<u8> {
    seq![32u8, 124u8, 32u8, 79u8, 118u8, 101u8, 114u8, 97u8, 108u8, 108u8, 58u8, 32u8]
}

/// The two lines `Rendering complete!` and `Total pixels: `, after a line
/// feed.
pub open spec fn complete_label() -> Seq<u8> {
    seq![
        10u8, 82u8, 101u8, 110u8, 100u8, 101u8, 114u8, 105u8, 110u8, 103u8, 32u8, 99u8, 111u8,
        109u8, 112u8, 108u8, 101u8, 116u8, 101u8, 33u8, 10u8, 84u8, 111u8, 116u8, 97u8, 108u8,
        32u8, 112u8, 105u8, 120u8, 101u8, 108u8, 115u8, 58u8, 32u8,
    ]
}

/// A line feed and `Pixels rendered: `
pub open spec fn rendered_label() -> Seq<u8> {
    seq![
        10u8, 80u8, 105u8, 120u8, 101u8, 108u8, 115u8, 32u8, 114u8, 101u8, 110u8, 100u8, 101u8,
        114u8, 101u8, 100u8, 58u8, 32u8,
    ]
}

/// A line feed and `Elapsed time: `
pub open spec fn elapsed_label() -> Seq<u8> {
    seq![
        10u8, 69u8, 108u8, 97u8, 112u8, 115u8, 101u8, 100u8, 32u8, 116u8, 105u8, 109u8, 101u8,
        58u8, 32u8,
    ]
}

/// What is shown of the task `k`: `T`, its number from 1 on, and its
/// percentage in three columns: `T1:  42%`.
pub open spec fn task_text(k: int, completed: int, total: int) -> Seq<u8> {
    seq![84u8] + decimal((k + 1) as nat) + seq![58u8, 32u8] + padded(percentage(completed, total) as nat, 3, 32u8)
        + seq![37u8]
}

/// What is shown of the first `k` tasks, with ` | ` between them.
pub open spec fn tasks_text(completed: Seq<usize>, totals: Seq<usize>, k: int) -> Seq<u8>
    decreases k,
{
    if k <= 0 {
        Seq::empty()
    } else if k == 1 {
        task_text(0, completed[0] as int, totals[0] as int)
    } else {
        tasks_text(completed, totals, k - 1) + separator() + task_text(
            k - 1,
            completed[k - 1] as int,
            totals[k - 1] as int,
        )
    }
}

/// Minutes and seconds, two digits each: `01:05`.
pub open spec fn clock_text(elapsed_secs: int) -> Seq<u8> {
    padded((elapsed_secs / 60) as nat, 2, 48u8) + seq![58u8] + padded((elapsed_secs % 60) as nat, 2, 48u8)
}

/// The line of the monitor: a carriage return, the tasks, the percentage of
/// all of them together, and the time that has passed.
pub open spec fn progress_text(completed: Seq<usize>, totals: Seq<usize>, elapsed_secs: int) -> Seq<u8> {
    let n = completed.len() as int;
    seq![13u8] + tasks_text(completed, totals, n) + overall_label() + padded(
        percentage(sum_of(completed, n), sum_of(totals, n)) as nat,
        3,
        32u8,
    ) + seq![37u8] + separator() + clock_text(elapsed_secs)
}

/// What is shown at the end of a render.
pub open spec fn final_text(completed: Seq<usize>, totals: Seq<usize>, elapsed_secs: int) -> Seq<u8> {
    complete_label() + decimal(sum_of(totals, totals.len() as int) as nat) + rendered_label() + decimal(
        sum_of(completed, completed.len() as int) as nat,
    ) + elapsed_label() + clock_text(elapsed_secs) + seq![10u8]
}

/// A sum of numbers is not negative, and each of them is at most
/// `usize::MAX`.
pub proof fn lemma_sum_of_bounds(numbers: Seq<usize>, k: int)
    requires
        0 <= k <= numbers.len(),
    ensures
        0 <= sum_of(numbers, k) <= k * usize::MAX,
    decreases k,
{
    if k > 0 {
        lemma_sum_of_bounds(numbers, k - 1);
    }
}

/// How many of a hundred `completed` is of `total`.
pub fn percent(completed: u128, total: u128) -> (r: u128)
    requires
        completed * 100 <= u128::MAX,
    ensures
        r == percentage(completed as int, total as int),
{
    if total > 0 {
        (completed * 100) / total
    } else {
        0
    }
}

fn push_separator(out: &mut Vec<u8>)
    ensures
        final(out)@ == old(out)@ + separator(),
{
    out.push(32);
    out.push(124);
    out.push(32);
}

fn push_overall_label(out: &mut Vec<u8>)
    ensures
        final(out)@ == old(out)@ + overall_label(),
{
    out.push(32);
    out.push(124);
    out.push(32);
    out.push(79);
    out.push(118);
    out.push(101);
    out.push(114);
    out.push(97);
    out.push(108);
    out.push(108);
    out.push(58);
    out.push(32);
}

fn push_complete_label(out: &mut Vec<u8>)
    ensures
        final(out)@ == old(out)@ + complete_label(),
{
    out.push(10);
    out.push(82);
    out.push(101);
    out.push(110);
    out.push(100);
    out.push(101);
    out.push(114);
    out.push(105);
    out.push(110);
    out.push(103);
    out.push(32);
    out.push(99);
    out.push(111);
    out.push(109);
    out.push(112);
    out.push(108);
    out.push(101);
    out.push(116);
    out.push(101);
    out.push(33);
    out.push(10);
    out.push(84);
    out.push(111);
    out.push(116);
    out.push(97);
    out.push(108);
    out.push(32);
    out.push(112);
    out.push(105);
    out.push(120);
    out.push(101);
    out.push(108);
    out.push(115);
    out.push(58);
    out.push(32);
}

fn push_rendered_label(out: &mut Vec<u8>)
    ensures
        final(out)@ == old(out)@ + rendered_label(),
{
    out.push(10);
    out.push(80);
    out.push(105);
    out.push(120);
    out.push(101);
    out.push(108);
    out.push(115);
    out.push(32);
    out.push(114);
    out.push(101);
    out.push(110);
    out.push(100);
    out.push(101);
    out.push(114);
    out.push(101);
    out.push(100);
    out.push(58);
    out.push(32);
}

fn push_elapsed_label(out: &mut Vec<u8>)
    ensures
        final(out)@ == old(out)@ + elapsed_label(),
{
    out.push(10);
    out.push(69);
    out.push(108);
    out.push(97);
    out.push(112);
    out.push(115);
    out.push(101);
    out.push(100);
    out.push(32);
    out.push(116);
    out.push(105);
    out.push(109);
    out.push(101);
    out.push(58);
    out.push(32);
}

fn push_clock(out: &mut Vec<u8>, elapsed_secs: u64)
    ensures
        final(out)@ == old(out)@ + clock_text(elapsed_secs as int),
{
    push_padded(out, (elapsed_secs / 60) as u128, 2, 48);
    out.push(58);
    push_padded(out, (elapsed_secs % 60) as u128, 2, 48);
}

impl ProgressTracker {
    /// Every task has a count and a total, and there are no more tasks
    /// than an `i32` can count.
    pub open spec fn wf(&self) -> bool {
        &&& self.task_progress@.len() == self.task_count
        &&& self.total_pixels_per_task@.len() == self.task_count
        &&& self.task_count <= i32::MAX
    }

    /// The tracker of `task_count` tasks that have rendered nothing yet. The
    /// task `k` has `rows_per_task[k]` rows of `image_width` pixels to
    /// render.
    pub fn new(task_count: usize, rows_per_task: Vec<i32>, image_width: i32) -> (r: Self)
        requires
            rows_per_task@.len() == task_count,
            task_count <= i32::MAX,
            0 <= image_width,
            forall|k: int|
                0 <= k < rows_per_task@.len() ==> 0 <= #[trigger] rows_per_task@[k] && rows_per_task@[k]
                    * image_width <= usize::MAX,
        ensures
            r.wf(),
            r.task_count == task_count,
            forall|k: int| 0 <= k < task_count ==> #[trigger] r.task_progress@[k] == 0,
            forall|k: int|
                0 <= k < task_count ==> #[trigger] r.total_pixels_per_task@[k] == rows_per_task@[k]
                    * image_width,
    {
        let mut task_progress: Vec<usize> = Vec::new();
        let mut total_pixels_per_task: Vec<usize> = Vec::new();
        let mut k: usize = 0;
        while k < task_count
            invariant
                k <= task_count,
                rows_per_task@.len() == task_count,
                0 <= image_width,
                forall|j: int|
                    0 <= j < rows_per_task@.len() ==> 0 <= #[trigger] rows_per_task@[j] && rows_per_task@[j]
                        * image_width <= usize::MAX,
                task_progress@.len() == k,
                total_pixels_per_task@.len() == k,
                forall|j: int| 0 <= j < k ==> #[trigger] task_progress@[j] == 0,
                forall|j: int|
                    0 <= j < k ==> #[trigger] total_pixels_per_task@[j] == rows_per_task@[j] * image_width,
            decreases task_count - k,
        {
            let rows = rows_per_task[k];
            assert(0 <= rows * image_width) by (nonlinear_arith)
                requires
                    0 <= rows,
                    0 <= image_width,
            ;
            assert(rows * image_width <= 0x7FFF_FFFF * 0x7FFF_FFFF) by (nonlinear_arith)
                requires
                    0 <= rows <= 0x7FFF_FFFF,
                    0 <= image_width <= 0x7FFF_FFFF,
            ;
            let total: i64 = (rows as i64) * (image_width as i64);
            task_progress.push(0);
            total_pixels_per_task.push(total as usize);
            k = k + 1;
        }
        Self { task_progress, total_pixels_per_task, task_count }
    }

    /// Takes note of how many pixels a task has rendered.
    pub fn update_progress(&mut self, task_id: usize, pixels_completed: usize)
        requires
            old(self).wf(),
            task_id < old(self).task_count,
        ensures
            final(self).wf(),
            final(self).task_progress@ == old(self).task_progress@.update(task_id as int, pixels_completed),
            final(self).total_pixels_per_task == old(self).total_pixels_per_task,
            final(self).task_count == old(self).task_count,
    {
        self.task_progress.set(task_id, pixels_completed);
    }

    /// The line that the monitor shows after `elapsed_secs` seconds.
    pub fn progress_line(&self, elapsed_secs: u64) -> (out: Vec<u8>)
        requires
            self.wf(),
        ensures
            out@ == progress_text(self.task_progress@, self.total_pixels_per_task@, elapsed_secs as int),
    {
        let mut out: Vec<u8> = Vec::new();
        let mut total_completed: u128 = 0;
        let mut total_pixels: u128 = 0;
        out.push(13);
        let n = self.task_progress.len();
        let mut task_id: usize = 0;
        while task_id < n
            invariant
                self.wf(),
                n == self.task_count,
                task_id <= n,
                total_completed == sum_of(self.task_progress@, task_id as int),
                total_pixels == sum_of(self.total_pixels_per_task@, task_id as int),
                out@ == seq![13u8] + tasks_text(
                    self.task_progress@,
                    self.total_pixels_per_task@,
                    task_id as int,
                ),
            decreases n - task_id,
        {
            proof {
                lemma_sum_of_bounds(self.task_progress@, task_id as int);
                lemma_sum_of_bounds(self.total_pixels_per_task@, task_id as int);
                assert(task_id * usize::MAX + usize::MAX <= 0xFFFF_FFFF_FFFF_FFFF * 0xFFFF_FFFF_FFFF_FFFF
                    + 0xFFFF_FFFF_FFFF_FFFF) by (nonlinear_arith)
                    requires
                        0 <= task_id <= 0xFFFF_FFFF_FFFF_FFFF,
                        usize::MAX <= 0xFFFF_FFFF_FFFF_FFFF,
                ;
            }
            let completed = self.task_progress[task_id] as u128;
            let total = self.total_pixels_per_task[task_id] as u128;
            let shown = percent(completed, total);
            total_completed = total_completed + completed;
            total_pixels = total_pixels + total;
            if task_id > 0 {
                push_separator(&mut out);
            }
            out.push(84);
            push_decimal(&mut out, (task_id as u128) + 1);
            out.push(58);
            out.push(32);
            push_padded(&mut out, shown, 3, 32);
            out.push(37);
            task_id = task_id + 1;
        }
        proof {
            lemma_sum_of_bounds(self.task_progress@, n as int);
            assert(n * usize::MAX <= 0x7FFF_FFFF * 0xFFFF_FFFF_FFFF_FFFF) by (nonlinear_arith)
                requires
                    0 <= n <= 0x7FFF_FFFF,
                    usize::MAX <= 0xFFFF_FFFF_FFFF_FFFF,
            ;
        }
        let overall = percent(total_completed, total_pixels);
        push_overall_label(&mut out);
        push_padded(&mut out, overall, 3, 32);
        out.push(37);
        push_separator(&mut out);
        push_clock(&mut out, elapsed_secs);
        out
    }

    /// What is shown when the render is done: how many pixels there were,
    /// how many were rendered, and how long it took.
    pub fn final_summary(&self, elapsed_secs: u64) -> (out: Vec<u8>)
        requires
            self.wf(),
        ensures
            out@ == final_text(self.task_progress@, self.total_pixels_per_task@, elapsed_secs as int),
    {
        let total_pixels = Self::sum(&self.total_pixels_per_task);
        let total_completed = Self::sum(&self.task_progress);
        let mut out: Vec<u8> = Vec::new();
        push_complete_label(&mut out);
        push_decimal(&mut out, total_pixels);
        push_rendered_label(&mut out);
        push_decimal(&mut out, total_completed);
        push_elapsed_label(&mut out);
        push_clock(&mut out, elapsed_secs);
        out.push(10);
        out
    }

    /// The sum of the numbers.
    pub fn sum(numbers: &Vec<usize>) -> (r: u128)
        ensures
            r == sum_of(numbers@, numbers@.len() as int),
    {
        let mut total: u128 = 0;
        let mut k: usize = 0;
        while k < numbers.len()
            invariant
                k <= numbers@.len(),
                total == sum_of(numbers@, k as int),
            decreases numbers@.len() - k,
        {
            proof {
                lemma_sum_of_bounds(numbers@, k as int);
                assert(k * usize::MAX + usize::MAX <= 0xFFFF_FFFF_FFFF_FFFF * 0xFFFF_FFFF_FFFF_FFFF
                    + 0xFFFF_FFFF_FFFF_FFFF) by (nonlinear_arith)
                    requires
                        0 <= k <= 0xFFFF_FFFF_FFFF_FFFF,
                        usize::MAX <= 0xFFFF_FFFF_FFFF_FFFF,
                ;
            }
            total = total + numbers[k] as u128;
            k = k + 1;
        }
        total
    }
}

} // verus!
