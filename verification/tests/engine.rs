use visu_modi_ram::probe_interface::{
    find_pending, sum_sizes, CycleStep, FlashEvent, FlashProgressState, LogQuery, PendingWrite,
    ProbeError, ProbeInterface, Progress, WatchSetting, NEWEST_WINDOW_MS,
};
use visu_modi_ram::variable::VariableInfo;

fn variable(name: &str, types: &str, address: u64, size: usize) -> VariableInfo {
    VariableInfo { name: name.to_string(), types: types.to_string(), address, size }
}

fn setting() -> WatchSetting {
    WatchSetting {
        target_mcu: "STM32F407VG".to_string(),
        probe_sn: "0669FF51".to_string(),
        watch_list: vec![
            variable("adc.offset", "short unsigned int", 0x2000_0010, 2),
            variable("temp", "float", 0x2000_0020, 4),
        ],
    }
}

fn pending(step: CycleStep) -> Vec<(String, String)> {
    match step {
        CycleStep::Apply(writes) => {
            writes.into_iter().map(|w| (w.symbol.name, w.data)).collect()
        }
        other => panic!("unexpected step {:?}", other),
    }
}

#[test]
fn new_engine_is_idle() {
    let engine = ProbeInterface::new();
    assert!(!engine.now_watching());
    assert_eq!(
        engine.get_flash_progress(),
        Progress { state: FlashProgressState::Idle, done: 0, total: 0 }
    );
    assert_eq!(engine.setting.watch_list, Vec::new());
    assert_eq!(FlashProgressState::default(), FlashProgressState::Idle);
}

#[test]
fn start_hands_out_a_snapshot() {
    let mut engine = ProbeInterface::new();
    engine.set_probe(setting());
    let snapshot = engine.watching_start(100_000).unwrap();
    assert!(engine.now_watching());
    assert_eq!(snapshot.target_mcu, "STM32F407VG");
    assert_eq!(snapshot.probe_sn, "0669FF51");
    assert_eq!(snapshot.watch_list, setting().watch_list);
    engine.set_probe(WatchSetting::default());
    assert_eq!(snapshot.watch_list.len(), 2);
}

#[test]
fn second_start_is_a_no_op() {
    let mut engine = ProbeInterface::new();
    engine.set_probe(setting());
    assert!(engine.watching_start(100_000).is_some());
    assert!(matches!(engine.next_step(0), CycleStep::Sample));
    assert!(engine.watching_start(1).is_none());
    assert!(engine.now_watching());
    assert!(matches!(engine.next_step(0), CycleStep::Apply(_)));
    assert!(matches!(engine.next_step(40_000), CycleStep::Sleep(60_000)));
}

#[test]
fn start_after_stop_starts_again() {
    let mut engine = ProbeInterface::new();
    assert!(engine.watching_start(10).is_some());
    engine.watching_stop();
    assert!(!engine.now_watching());
    assert!(engine.watching_start(20).is_some());
    assert!(engine.now_watching());
}

#[test]
fn flash_while_watching_is_refused() {
    let mut engine = ProbeInterface::new();
    engine.set_probe(setting());
    engine.watching_start(100_000);
    let before = engine.get_flash_progress();
    assert!(matches!(engine.flash(), Err(ProbeError::ProbeBusy)));
    assert_eq!(engine.get_flash_progress(), before);
    assert!(engine.now_watching());
    engine.watching_stop();
    let snapshot = engine.flash().unwrap();
    assert_eq!(snapshot.probe_sn, "0669FF51");
    assert_eq!(
        engine.get_flash_progress(),
        Progress { state: FlashProgressState::Erasing, done: 0, total: 0 }
    );
}

#[test]
fn slow_cycle_sleeps_for_nothing() {
    let mut engine = ProbeInterface::new();
    engine.watching_start(100_000);
    assert!(matches!(engine.next_step(0), CycleStep::Sample));
    assert!(matches!(engine.next_step(90_000), CycleStep::Apply(_)));
    assert!(matches!(engine.next_step(130_000), CycleStep::Sleep(0)));
    assert!(matches!(engine.next_step(0), CycleStep::Sample));
    assert!(matches!(engine.next_step(0), CycleStep::Apply(_)));
    assert!(matches!(engine.next_step(100_000), CycleStep::Sleep(0)));
    assert!(matches!(engine.next_step(0), CycleStep::Sample));
    assert!(matches!(engine.next_step(0), CycleStep::Apply(_)));
    assert!(matches!(engine.next_step(99_999), CycleStep::Sleep(1)));
}

#[test]
fn stop_is_seen_between_cycles() {
    let mut engine = ProbeInterface::new();
    engine.watching_start(1_000);
    assert!(matches!(engine.next_step(0), CycleStep::Sample));
    engine.watching_stop();
    assert!(matches!(engine.next_step(10), CycleStep::Apply(_)));
    assert!(matches!(engine.next_step(20), CycleStep::Sleep(980)));
    assert!(matches!(engine.next_step(0), CycleStep::Stop));
    assert!(matches!(engine.next_step(0), CycleStep::Stop));
}

#[test]
fn idle_engine_stops_the_loop() {
    let mut engine = ProbeInterface::new();
    assert!(matches!(engine.next_step(0), CycleStep::Stop));
}

#[test]
fn writes_are_drained_once_per_cycle() {
    let mut engine = ProbeInterface::new();
    let offset = variable("adc.offset", "short unsigned int", 0x2000_0010, 2);
    let temp = variable("temp", "float", 0x2000_0020, 4);
    engine.watching_start(1_000);
    engine.insert_wirte_que(&offset, "300");
    engine.insert_wirte_que(&temp, "23.5");
    assert!(matches!(engine.next_step(0), CycleStep::Sample));
    engine.insert_wirte_que(&offset, "301");
    assert_eq!(
        pending(engine.next_step(0)),
        vec![
            ("adc.offset".to_string(), "301".to_string()),
            ("temp".to_string(), "23.5".to_string())
        ]
    );
    engine.insert_wirte_que(&temp, "24");
    assert!(matches!(engine.next_step(0), CycleStep::Sleep(1_000)));
    assert!(matches!(engine.next_step(0), CycleStep::Sample));
    assert_eq!(pending(engine.next_step(0)), vec![("temp".to_string(), "24".to_string())]);
    assert!(matches!(engine.next_step(0), CycleStep::Sleep(_)));
    assert!(matches!(engine.next_step(0), CycleStep::Sample));
    assert_eq!(pending(engine.next_step(0)), Vec::new());
}

#[test]
fn queue_is_keyed_by_the_whole_descriptor() {
    let mut engine = ProbeInterface::new();
    engine.watching_start(1_000);
    engine.insert_wirte_que(&variable("x", "int", 0x10, 4), "1");
    engine.insert_wirte_que(&variable("x", "int", 0x14, 4), "2");
    engine.insert_wirte_que(&variable("x", "char", 0x10, 4), "3");
    engine.insert_wirte_que(&variable("x", "int", 0x10, 2), "4");
    engine.insert_wirte_que(&variable("y", "int", 0x10, 4), "5");
    engine.insert_wirte_que(&variable("x", "int", 0x10, 4), "6");
    engine.next_step(0);
    match engine.next_step(0) {
        CycleStep::Apply(writes) => {
            let seen: Vec<(u64, String, usize, String)> = writes
                .into_iter()
                .map(|w| (w.symbol.address, w.symbol.types, w.symbol.size, w.data))
                .collect();
            assert_eq!(
                seen,
                vec![
                    (0x10, "int".to_string(), 4, "6".to_string()),
                    (0x14, "int".to_string(), 4, "2".to_string()),
                    (0x10, "char".to_string(), 4, "3".to_string()),
                    (0x10, "int".to_string(), 2, "4".to_string()),
                    (0x10, "int".to_string(), 4, "5".to_string()),
                ]
            );
        }
        other => panic!("unexpected step {:?}", other),
    }
}

#[test]
fn find_pending_gives_first_position_or_length() {
    let queue = vec![
        PendingWrite { symbol: variable("a", "int", 1, 4), data: "1".to_string() },
        PendingWrite { symbol: variable("b", "int", 2, 4), data: "2".to_string() },
    ];
    assert_eq!(find_pending(&queue, &variable("a", "int", 1, 4)), 0);
    assert_eq!(find_pending(&queue, &variable("b", "int", 2, 4)), 1);
    assert_eq!(find_pending(&queue, &variable("b", "int", 3, 4)), 2);
    assert_eq!(find_pending(&Vec::new(), &variable("a", "int", 1, 4)), 0);
}

fn layout() -> FlashEvent {
    FlashEvent::Initialized { pages: vec![256, 256, 256, 256], sectors: vec![2048, 2048] }
}

fn progress(engine: &ProbeInterface) -> (FlashProgressState, u64, u64) {
    let p = engine.get_flash_progress();
    (p.state, p.done, p.total)
}

#[test]
fn download_runs_through_its_phases() {
    let mut engine = ProbeInterface::new();
    engine.flash().unwrap();
    assert_eq!(progress(&engine), (FlashProgressState::Erasing, 0, 0));
    engine.on_flash_event(&layout());
    assert_eq!(progress(&engine), (FlashProgressState::Erasing, 0, 0));
    engine.on_flash_event(&FlashEvent::StartedFilling);
    engine.on_flash_event(&FlashEvent::PageFilled);
    engine.on_flash_event(&FlashEvent::FinishedFilling);
    assert_eq!(progress(&engine), (FlashProgressState::Erasing, 0, 0));
    engine.on_flash_event(&FlashEvent::StartedErasing);
    assert_eq!(progress(&engine), (FlashProgressState::Erasing, 0, 4096));
    engine.on_flash_event(&FlashEvent::SectorErased { size: 2048 });
    assert_eq!(progress(&engine), (FlashProgressState::Erasing, 2048, 4096));
    engine.on_flash_event(&FlashEvent::SectorErased { size: 2048 });
    assert_eq!(progress(&engine), (FlashProgressState::Erasing, 4096, 4096));
    engine.on_flash_event(&FlashEvent::FinishedErasing);
    assert_eq!(progress(&engine), (FlashProgressState::Erasing, 4096, 4096));
    engine.on_flash_event(&FlashEvent::StartedProgramming);
    assert_eq!(progress(&engine), (FlashProgressState::Programing, 0, 1024));
    engine.on_flash_event(&FlashEvent::PageProgrammed { size: 256 });
    engine.on_flash_event(&FlashEvent::DiagnosticMessage);
    assert_eq!(progress(&engine), (FlashProgressState::Programing, 256, 1024));
    engine.on_flash_event(&FlashEvent::PageProgrammed { size: 256 });
    engine.on_flash_event(&FlashEvent::PageProgrammed { size: 256 });
    engine.on_flash_event(&FlashEvent::PageProgrammed { size: 256 });
    assert_eq!(progress(&engine), (FlashProgressState::Programing, 1024, 1024));
    engine.on_flash_event(&FlashEvent::FinishedProgramming);
    assert_eq!(progress(&engine), (FlashProgressState::Finished, 1024, 1024));
}

#[test]
fn progress_never_exceeds_the_total() {
    let mut engine = ProbeInterface::new();
    engine.flash().unwrap();
    engine.on_flash_event(&layout());
    engine.on_flash_event(&FlashEvent::StartedErasing);
    engine.on_flash_event(&FlashEvent::SectorErased { size: 4000 });
    engine.on_flash_event(&FlashEvent::SectorErased { size: 4000 });
    assert_eq!(progress(&engine), (FlashProgressState::Erasing, 4096, 4096));
    engine.on_flash_event(&FlashEvent::SectorErased { size: u64::MAX });
    assert_eq!(progress(&engine), (FlashProgressState::Erasing, 4096, 4096));
    engine.on_flash_event(&FlashEvent::PageProgrammed { size: 10 });
    assert_eq!(progress(&engine), (FlashProgressState::Erasing, 4096, 4096));
}

#[test]
fn failure_ends_the_download() {
    for failure in [
        FlashEvent::FailedErasing,
        FlashEvent::FailedProgramming,
        FlashEvent::FailedFilling,
        FlashEvent::Aborted,
    ] {
        let mut engine = ProbeInterface::new();
        engine.flash().unwrap();
        engine.on_flash_event(&layout());
        engine.on_flash_event(&FlashEvent::StartedErasing);
        engine.on_flash_event(&FlashEvent::SectorErased { size: 2048 });
        engine.on_flash_event(&failure);
        assert_eq!(progress(&engine), (FlashProgressState::Failed, 2048, 4096));
        engine.on_flash_event(&FlashEvent::StartedProgramming);
        engine.on_flash_event(&FlashEvent::PageProgrammed { size: 256 });
        engine.on_flash_event(&FlashEvent::FinishedProgramming);
        assert_eq!(progress(&engine), (FlashProgressState::Failed, 2048, 4096));
    }
}

#[test]
fn finished_needs_programming() {
    let mut engine = ProbeInterface::new();
    engine.flash().unwrap();
    engine.on_flash_event(&layout());
    engine.on_flash_event(&FlashEvent::FinishedProgramming);
    assert_eq!(progress(&engine), (FlashProgressState::Erasing, 0, 0));
    engine.on_flash_event(&FlashEvent::StartedErasing);
    engine.on_flash_event(&FlashEvent::FinishedProgramming);
    assert_eq!(progress(&engine), (FlashProgressState::Erasing, 0, 4096));
    engine.on_flash_event(&FlashEvent::FinishedErasing);
    assert_eq!(progress(&engine), (FlashProgressState::Erasing, 0, 4096));
}

#[test]
fn finished_download_takes_no_more_events() {
    let mut engine = ProbeInterface::new();
    engine.flash().unwrap();
    engine.on_flash_event(&layout());
    engine.on_flash_event(&FlashEvent::StartedProgramming);
    engine.on_flash_event(&FlashEvent::FinishedProgramming);
    assert_eq!(progress(&engine), (FlashProgressState::Finished, 0, 1024));
    engine.on_flash_event(&FlashEvent::FailedErasing);
    engine.on_flash_event(&FlashEvent::StartedErasing);
    engine.on_flash_event(&FlashEvent::Aborted);
    assert_eq!(progress(&engine), (FlashProgressState::Finished, 0, 1024));
    engine.flash().unwrap();
    assert_eq!(progress(&engine), (FlashProgressState::Erasing, 0, 0));
}

#[test]
fn erasing_does_not_follow_programming() {
    let mut engine = ProbeInterface::new();
    engine.flash().unwrap();
    engine.on_flash_event(&layout());
    engine.on_flash_event(&FlashEvent::StartedProgramming);
    engine.on_flash_event(&FlashEvent::PageProgrammed { size: 256 });
    engine.on_flash_event(&FlashEvent::StartedErasing);
    engine.on_flash_event(&FlashEvent::SectorErased { size: 2048 });
    assert_eq!(progress(&engine), (FlashProgressState::Programing, 256, 1024));
}

#[test]
fn idle_pipeline_ignores_progress_but_not_failure() {
    let mut engine = ProbeInterface::new();
    engine.on_flash_event(&FlashEvent::SectorErased { size: 1 });
    engine.on_flash_event(&FlashEvent::PageProgrammed { size: 1 });
    assert_eq!(progress(&engine), (FlashProgressState::Idle, 0, 0));
    engine.on_flash_event(&FlashEvent::Aborted);
    assert_eq!(progress(&engine), (FlashProgressState::Failed, 0, 0));
}

#[test]
fn sizes_are_summed_with_a_cap() {
    assert_eq!(sum_sizes(&Vec::new()), 0);
    assert_eq!(sum_sizes(&vec![1, 2, 3]), 6);
    assert_eq!(sum_sizes(&vec![u64::MAX, 1]), u64::MAX);
    assert_eq!(sum_sizes(&vec![u64::MAX - 1, 1, 1]), u64::MAX);
}

#[test]
fn newest_value_is_looked_for_in_the_last_half_second() {
    assert_eq!(NEWEST_WINDOW_MS, 500);
    assert_eq!(
        ProbeInterface::get_newest_date(12_345),
        LogQuery { time_start: Some(12_345), time_limit: Some(11_845), limit: None }
    );
    assert_eq!(
        ProbeInterface::get_newest_date(499),
        LogQuery { time_start: Some(499), time_limit: Some(0), limit: None }
    );
    assert_eq!(
        ProbeInterface::get_newest_date(500),
        LogQuery { time_start: Some(500), time_limit: Some(0), limit: None }
    );
}

#[test]
fn series_window_is_clamped_at_the_session_start() {
    assert_eq!(
        ProbeInterface::get_log_vec(60_000, Some(20_000)),
        LogQuery { time_start: Some(60_000), time_limit: Some(40_000), limit: None }
    );
    assert_eq!(
        ProbeInterface::get_log_vec(5_000, Some(20_000)),
        LogQuery { time_start: Some(5_000), time_limit: Some(0), limit: None }
    );
    assert_eq!(
        ProbeInterface::get_log_vec(5_000, None),
        LogQuery { time_start: Some(5_000), time_limit: None, limit: None }
    );
}

#[test]
fn setting_copy_is_deep() {
    let source = setting();
    let copy = source.duplicate();
    assert_eq!(copy.target_mcu, source.target_mcu);
    assert_eq!(copy.probe_sn, source.probe_sn);
    assert_eq!(copy.watch_list, source.watch_list);
}
