use viewer_core::color::Rgb;
use viewer_core::img::{ColorImage, LumaImage};
use viewer_core::jobs::{JobController, JobEvent, JobState, PollOutcome};

fn one_pixel_color(v: u64) -> ColorImage {
    ColorImage { width: 1, height: 1, pixels: vec![Rgb { r: v, g: v, b: v, den: 255 }] }
}

fn one_pixel_luma(v: u8) -> LumaImage {
    LumaImage::new(1, 1, vec![v])
}

#[test]
fn dispatch_marks_the_slot_running() {
    let mut c = JobController::new();
    let slot = c.add_slot(one_pixel_color(10));
    assert_eq!(c.slots[slot].job, JobState::Idle);
    let input = c.dispatch_job(slot, one_pixel_luma(10));
    assert_eq!(input.data, vec![10]);
    assert_eq!(c.slots[slot].job, JobState::Running);
}

#[test]
fn polling_before_completion_changes_nothing() {
    let mut c = JobController::new();
    let slot = c.add_slot(one_pixel_color(10));
    c.dispatch_job(slot, one_pixel_luma(10));
    let r = c.poll_and_consume(slot, JobEvent::Pending);
    assert_eq!(r, PollOutcome::StillRunning);
    assert_eq!(c.slots[slot].job, JobState::Running);
    let img = c.slots[slot].image.as_ref().unwrap();
    assert_eq!(img.pixels[0].r, 10);
}

#[test]
fn completion_installs_exactly_once_then_polls_are_noops() {
    let mut c = JobController::new();
    let slot = c.add_slot(one_pixel_color(10));
    c.dispatch_job(slot, one_pixel_luma(10));
    let r = c.poll_and_consume(slot, JobEvent::Finished(one_pixel_luma(42)));
    assert_eq!(r, PollOutcome::Installed);
    assert_eq!(c.slots[slot].job, JobState::Idle);
    let img = c.slots[slot].image.as_ref().unwrap();
    assert_eq!(img.pixels[0].r, 42);
    assert_eq!(img.pixels[0].den, 255);
    // the job was consumed: a second poll finds nothing and changes nothing
    let r2 = c.poll_and_consume(slot, JobEvent::Pending);
    assert_eq!(r2, PollOutcome::NoJob);
    assert_eq!(c.slots[slot].image.as_ref().unwrap().pixels[0].r, 42);
}

#[test]
fn aborted_worker_is_fatal_but_keeps_the_prior_image() {
    let mut c = JobController::new();
    let slot = c.add_slot(one_pixel_color(10));
    c.dispatch_job(slot, one_pixel_luma(10));
    let r = c.poll_and_consume(slot, JobEvent::Aborted);
    assert_eq!(r, PollOutcome::JobFailed);
    assert_eq!(c.slots[slot].job, JobState::Idle);
    assert!(c.slots[slot].failed);
    assert_eq!(c.slots[slot].image.as_ref().unwrap().pixels[0].r, 10);
}

#[test]
fn slots_are_independent() {
    let mut c = JobController::new();
    let a = c.add_slot(one_pixel_color(1));
    let b = c.add_slot(one_pixel_color(2));
    c.dispatch_job(a, one_pixel_luma(1));
    assert_eq!(c.slots[a].job, JobState::Running);
    assert_eq!(c.slots[b].job, JobState::Idle);
    c.poll_and_consume(a, JobEvent::Finished(one_pixel_luma(9)));
    assert_eq!(c.slots[b].image.as_ref().unwrap().pixels[0].r, 2);
}
