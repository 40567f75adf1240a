use julia_render::options::FillStyle;
use julia_render::options::RenderOptions;
use julia_render::pipeline::ExportPipeline;
use julia_render::pipeline::RenderJob;

fn job(path: &str) -> RenderJob {
    RenderJob {
        path: path.to_string(),
        options: RenderOptions {
            width: 8,
            height: 8,
            unit_width: 4_000_000,
            max_iter: 4,
            cx: 0,
            cy: 0,
            fill_style: FillStyle::Black,
        },
        color: (1, 2, 3),
    }
}

#[test]
fn jobs_execute_and_report_in_submission_order() {
    let mut p = ExportPipeline::new();
    p.submit(job("first.png"));
    p.submit(job("second.png"));

    let a = p.worker_take().expect("first job");
    assert_eq!(a.path, "first.png");
    p.worker_report(5);

    let b = p.worker_take().expect("second job");
    assert_eq!(b.path, "second.png");
    p.worker_report(7);

    assert_eq!(p.poll_result(), Some(5));
    assert_eq!(p.poll_result(), Some(7));
    assert_eq!(p.poll_result(), None);
}

#[test]
fn poll_is_nonblocking_while_rendering() {
    let mut p = ExportPipeline::new();
    assert_eq!(p.poll_result(), None);
    p.submit(job("a.png"));
    assert_eq!(p.poll_result(), None);
    let _ = p.worker_take().expect("job");
    // Mid-render: nothing reported yet, the controller just gets None.
    assert_eq!(p.poll_result(), None);
    p.worker_report(9);
    assert_eq!(p.poll_result(), Some(9));
}

#[test]
fn submitting_while_busy_queues_not_drops() {
    let mut p = ExportPipeline::new();
    p.submit(job("a.png"));
    let _ = p.worker_take().expect("job a");
    // Worker is mid-render; a new submission waits its turn.
    p.submit(job("b.png"));
    p.worker_report(1);
    let b = p.worker_take().expect("job b");
    assert_eq!(b.path, "b.png");
    p.worker_report(2);
    assert_eq!(p.poll_result(), Some(1));
    assert_eq!(p.poll_result(), Some(2));
}

#[test]
fn shutdown_drains_queued_work_then_stops() {
    let mut p = ExportPipeline::new();
    p.submit(job("last.png"));
    p.shutdown();
    // The queued job still runs to completion.
    let j = p.worker_take().expect("queued job survives shutdown");
    assert_eq!(j.path, "last.png");
    p.worker_report(3);
    // Then the worker exits its loop.
    assert_eq!(p.worker_take().map(|j| j.path), None);
    assert!(p.stopped);
    // The completed result is still delivered; nothing more ever arrives.
    assert_eq!(p.poll_result(), Some(3));
    assert_eq!(p.poll_result(), None);
}

#[test]
fn shutdown_of_idle_pipeline_stops_at_once() {
    let mut p = ExportPipeline::new();
    p.shutdown();
    assert!(p.worker_take().map(|j| j.path).is_none());
    assert!(p.stopped);
    assert_eq!(p.poll_result(), None);
}
