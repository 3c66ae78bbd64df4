use serial_plotter::bounded::BoundedLog;
use serial_plotter::config::{
    AppConfig, CommandConfig, ConfigDataBits, ConfigFlowControl, ConfigParity, ConfigStopBits,
    PlotConfig, SerialConfig,
};
use serial_plotter::lines::{LineRecord, recognize_line};
use serial_plotter::monitor::{ConfigStatus, PlotData, SerialPlotterApp, LOG_CAPACITY, MAX_PLOT_POINTS};
use serial_plotter::table::TextMap;
use serial_plotter::worker::{WorkerAction, WorkerEvent, WorkerState};

fn plot(name: &str, key: &str) -> PlotConfig {
    PlotConfig { name: name.to_string(), data_key: key.to_string() }
}

fn serial(interval: u64) -> SerialConfig {
    SerialConfig {
        baud_rate: 115200,
        parity: ConfigParity::Even,
        data_bits: ConfigDataBits::Eight,
        stop_bits: ConfigStopBits::Two,
        flow_control: ConfigFlowControl::Software,
        polling_interval_ms: interval,
    }
}

fn commands() -> Vec<CommandConfig> {
    vec![
        CommandConfig { command: "get temp".to_string(), plots: vec![plot("Temperature", "temp=")] },
        CommandConfig {
            command: "get psu".to_string(),
            plots: vec![plot("Voltage", "V="), plot("Mode", "mode:")],
        },
    ]
}

fn config() -> AppConfig {
    let mut params = TextMap::new();
    params.insert("FAN_SPEED".to_string(), "MEDIUM".to_string());
    AppConfig {
        product_type: "PSU-1".to_string(),
        serial: serial(250),
        commands: commands(),
        product_parameters: params,
    }
}

fn names(records: &[LineRecord]) -> Vec<(String, Option<String>, String)> {
    records
        .iter()
        .map(|r| (r.plot_name.clone(), r.value_text.clone(), r.raw_line.clone()))
        .collect()
}

#[test]
fn recognize_line_reports_each_matching_plot() {
    let plots = vec![plot("Temperature", "temp="), plot("Voltage", "V="), plot("Mode", "mode:")];
    let r = recognize_line("  V= 12.1 temp=30 \r\n", &plots);
    assert_eq!(
        names(&r),
        vec![
            ("Temperature".to_string(), Some("30".to_string()), "V= 12.1 temp=30".to_string()),
            ("Voltage".to_string(), Some("12.1 temp=30".to_string()), "V= 12.1 temp=30".to_string()),
        ]
    );
}

#[test]
fn recognize_line_reports_unrecognized_line_once() {
    let plots = vec![plot("Temperature", "temp=")];
    let r = recognize_line("hello\n", &plots);
    assert_eq!(names(&r), vec![(String::new(), None, "hello".to_string())]);
    let r = recognize_line("", &Vec::new());
    assert_eq!(names(&r), vec![(String::new(), None, String::new())]);
}

#[test]
fn worker_polls_only_when_interval_elapsed() {
    let mut w = WorkerState::new(&serial(100), commands(), TextMap::new());
    assert_eq!(w.polling_interval_ms, 100);
    match w.step(WorkerEvent::Clock(99)) {
        WorkerAction::Continue => {}
        _ => panic!("poll before the interval"),
    }
    match w.step(WorkerEvent::Clock(100)) {
        WorkerAction::Write(frames) => {
            assert_eq!(frames, vec!["get temp\r\n".to_string(), "get psu\r\n".to_string()])
        }
        _ => panic!("no poll after the interval"),
    }
    assert_eq!(w.last_poll_ms, 0);
    // the writes took until 104: the next poll counts from there
    assert!(matches!(w.step(WorkerEvent::PollWritten(104)), WorkerAction::Continue));
    assert_eq!(w.last_poll_ms, 104);
    match w.step(WorkerEvent::Clock(200)) {
        WorkerAction::Continue => {}
        _ => panic!("poll too early"),
    }
    match w.step(WorkerEvent::Clock(204)) {
        WorkerAction::Write(frames) => assert_eq!(frames.len(), 2),
        _ => panic!("no second poll"),
    }
}

#[test]
fn worker_handles_commands_lines_params_and_stop() {
    let mut w = WorkerState::new(&serial(100), commands(), TextMap::new());
    match w.step(WorkerEvent::UserCommand("set fan 3".to_string())) {
        WorkerAction::Write(frames) => assert_eq!(frames, vec!["set fan 3\r\n".to_string()]),
        _ => panic!("user command not written"),
    }
    match w.step(WorkerEvent::LineRead("mode: STANDBY\r\n".to_string())) {
        WorkerAction::Publish(records) => assert_eq!(
            names(&records),
            vec![("Mode".to_string(), Some("STANDBY".to_string()), "mode: STANDBY".to_string())]
        ),
        _ => panic!("line not published"),
    }
    let mut p = TextMap::new();
    p.insert("FAN_SPEED".to_string(), "HIGH".to_string());
    match w.step(WorkerEvent::ParamsReplaced(p)) {
        WorkerAction::Continue => {}
        _ => panic!("params"),
    }
    assert_eq!(w.params.get(&"FAN_SPEED".to_string()).map(|s| s.as_str()), Some("HIGH"));
    assert!(matches!(w.step(WorkerEvent::OutputFailed), WorkerAction::Finish));
    assert!(matches!(w.step(WorkerEvent::StopRequested), WorkerAction::Finish));
}

#[test]
fn bounded_log_keeps_newest_items() {
    let mut log = BoundedLog::new(3);
    for i in 0..5u32 {
        log.push(i);
    }
    assert_eq!(log.len(), 3);
    assert_eq!((*log.get(0), *log.get(1), *log.get(2)), (2, 3, 4));
    assert_eq!(log.back(), Some(&4));
    let mut zero = BoundedLog::new(0);
    zero.push('a');
    zero.push('b');
    assert_eq!(zero.len(), 1);
    assert_eq!(zero.back(), Some(&'b'));
    let empty: BoundedLog<u8> = BoundedLog::new(2);
    assert!(empty.is_empty());
    assert_eq!(empty.back(), None);
}

fn loaded_app() -> SerialPlotterApp<[f64; 2]> {
    let mut app = SerialPlotterApp::new(&vec!["/dev/ttyUSB0".to_string(), "/dev/ttyS0".to_string()]);
    app.load_config(Ok(config()));
    app
}

#[test]
fn new_app_selects_first_port() {
    let app: SerialPlotterApp<[f64; 2]> =
        SerialPlotterApp::new(&vec!["/dev/ttyUSB0".to_string(), "/dev/ttyS0".to_string()]);
    assert_eq!(app.selected_port_name, "/dev/ttyUSB0");
    assert_eq!(app.config_file_path, "config.json");
    assert!(!app.is_connected);
    let none: SerialPlotterApp<[f64; 2]> = SerialPlotterApp::new(&Vec::new());
    assert_eq!(none.selected_port_name, "");
}

#[test]
fn ingest_routes_points_and_text_values() {
    let mut app = loaded_app();
    app.ingest(PlotData {
        plot_name: "Voltage".to_string(),
        point: Some([1.0, 12.1]),
        raw_line: "V= 12.1".to_string(),
    });
    assert_eq!(app.plot_states[1].data.len(), 1);
    assert_eq!(*app.plot_states[1].data.get(0), [1.0, 12.1]);
    assert!(app.plot_states[0].data.is_empty());

    app.ingest(PlotData {
        plot_name: "Mode".to_string(),
        point: None,
        raw_line: "mode:  STANDBY ".to_string(),
    });
    assert_eq!(app.state_values.get(&"Mode".to_string()).map(|s| s.as_str()), Some("STANDBY"));
    assert_eq!(app.drawn_plots(), vec![0, 1]);

    app.ingest(PlotData { plot_name: String::new(), point: None, raw_line: "boot ok".to_string() });
    assert_eq!(app.state_values.len(), 1);
    assert_eq!(app.log_history.len(), 3);
    assert_eq!(app.log_history.back().map(|s| s.as_str()), Some("boot ok"));
}

#[test]
fn histories_are_capped() {
    let mut app = loaded_app();
    for i in 0..(MAX_PLOT_POINTS + 20) {
        app.ingest(PlotData {
            plot_name: "Temperature".to_string(),
            point: Some([i as f64, 20.0]),
            raw_line: format!("temp={}", i),
        });
    }
    assert_eq!(app.plot_states[0].data.len(), MAX_PLOT_POINTS);
    assert_eq!(app.plot_states[0].data.get(0)[0], 20.0);
    assert_eq!(app.log_history.len(), LOG_CAPACITY);
    assert_eq!(
        app.log_history.back().map(|s| s.as_str()),
        Some(format!("temp={}", MAX_PLOT_POINTS + 19).as_str())
    );
}

#[test]
fn connect_requires_a_loaded_config() {
    let mut app: SerialPlotterApp<[f64; 2]> = SerialPlotterApp::new(&vec!["COM3".to_string()]);
    assert!(!app.connect_enabled());
    assert!(app.connect().is_none());
    assert!(!app.is_connected);
    assert_eq!(
        app.config_load_error.as_deref(),
        Some("Cannot connect: Configuration not loaded.")
    );
}

#[test]
fn connect_hands_the_worker_its_settings() {
    let mut app = loaded_app();
    app.set_param(&"FAN_SPEED".to_string(), "LOW".to_string());
    app.set_param(&"UNKNOWN".to_string(), "X".to_string());
    assert_eq!(app.editable_params.len(), 1);
    assert!(app.connect_enabled());
    let plan = app.connect().expect("plan");
    assert!(app.is_connected);
    assert_eq!(plan.port_name, "/dev/ttyUSB0");
    assert_eq!(plan.serial, serial(250));
    assert_eq!(plan.commands.len(), 2);
    assert_eq!(plan.commands[1].command, "get psu");
    assert_eq!(plan.params.get(&"FAN_SPEED".to_string()).map(|s| s.as_str()), Some("LOW"));

    assert!(!app.send_enabled());
    app.command_input = "get temp".to_string();
    assert!(app.send_enabled());
    app.clear_command_input();
    assert_eq!(app.command_input, "");
    app.disconnect();
    assert!(!app.is_connected);
}

#[test]
fn config_status_prefers_error_then_product() {
    let mut app: SerialPlotterApp<[f64; 2]> = SerialPlotterApp::new(&Vec::new());
    assert!(matches!(app.config_status(), ConfigStatus::Awaiting));
    app.load_config(Ok(config()));
    match app.config_status() {
        ConfigStatus::Loaded(t) => assert_eq!(t, "PSU-1"),
        _ => panic!("product expected"),
    }
    app.load_config(Err(serial_plotter::config::ConfigLoadError::FileRead("gone".to_string())));
    match app.config_status() {
        ConfigStatus::Failed(m) => assert_eq!(m, "File Read Error: gone"),
        _ => panic!("error expected"),
    }
}

#[test]
fn params_are_sent_only_after_an_edit_while_connected() {
    let mut app = loaded_app();
    assert!(app.params_update(true).is_none());
    let _plan = app.connect().expect("plan");
    assert!(app.params_update(false).is_none());
    let sent = app.params_update(true).expect("params");
    assert_eq!(sent.get(&"FAN_SPEED".to_string()).map(|s| s.as_str()), Some("MEDIUM"));
}

#[test]
fn a_run_writes_whole_frames_in_event_order() {
    let mut w = WorkerState::new(&serial(10), commands(), TextMap::new());
    let events = vec![
        WorkerEvent::UserCommand("a".to_string()),
        WorkerEvent::Clock(10),
        WorkerEvent::PollWritten(11),
        WorkerEvent::ParamsReplaced(TextMap::new()),
        WorkerEvent::UserCommand("b".to_string()),
        WorkerEvent::Clock(15),
        WorkerEvent::StopRequested,
        WorkerEvent::UserCommand("never".to_string()),
    ];
    let mut written: Vec<String> = Vec::new();
    for e in events {
        match w.step(e) {
            WorkerAction::Write(frames) => written.extend(frames),
            WorkerAction::Finish => break,
            _ => {}
        }
    }
    assert_eq!(written, vec!["a\r\n", "get temp\r\n", "get psu\r\n", "b\r\n"]);
}
