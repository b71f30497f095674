use runenui_runtime::phases::{SurfacePhase, SurfacePhaseReport};
use runenui_runtime::profile::{add_duration, PhaseFunctionCounts, PublicationProfileRecorder, TextLayoutDecision};

#[test]
fn profile_counters_saturate_and_take_resets() {
    let mut recorder = PublicationProfileRecorder::new();
    recorder.record_layout(5);
    recorder.record_layout(7);
    recorder.record_measure_callback(3);
    recorder.record_measure_callback(4);
    recorder.record_text_layout_decision(TextLayoutDecision::Reused);
    recorder.record_paint_text_run_items(usize::MAX);
    recorder.record_paint_text_run_items(1);
    recorder.record_surface_plan(u128::MAX);
    recorder.record_surface_plan(1);
    let taken = recorder.take();
    assert_eq!(taken.layout_ns, 12);
    assert_eq!(taken.widget_measure_callback_ns, 7);
    assert_eq!(taken.measure_calls, 2);
    assert_eq!(taken.reused, 1);
    assert_eq!(taken.reshaped, 0);
    assert_eq!(taken.paint_text_run_items, usize::MAX);
    assert_eq!(taken.surface_plan_ns, u128::MAX);
    assert_eq!(recorder.take().layout_ns, 0);
    let mut total = u128::MAX - 1;
    add_duration(&mut total, 5);
    assert_eq!(total, u128::MAX);
}

#[test]
fn report_bookkeeping_is_independent_from_phase_execution_counters() {
    let mut counts = PhaseFunctionCounts::new();
    counts.reset_phase_function_counts();
    let mut report = SurfacePhaseReport::default();
    report.record(SurfacePhase::Tree);
    report.record(SurfacePhase::Paint);
    assert_eq!(report.executed(), &[SurfacePhase::Tree, SurfacePhase::Paint]);
    assert_eq!(counts.phase_function_counts(), [0; 7]);
}

#[test]
fn phase_function_counters_count_each_note() {
    let mut counts = PhaseFunctionCounts::new();
    counts.note_phase_function_execution(0);
    counts.note_phase_function_execution(5);
    counts.note_phase_function_execution(5);
    assert_eq!(counts.phase_function_counts(), [1, 0, 0, 0, 0, 2, 0]);
    counts.reset_phase_function_counts();
    assert_eq!(counts.phase_function_counts(), [0; 7]);
}
