use serial_plotter::config::{
    AppConfig, CommandConfig, ConfigDataBits, ConfigFlowControl, ConfigLoadError, ConfigParity,
    ConfigStopBits, PlotConfig, SerialConfig, clone_commands, plot_configs,
};
use serial_plotter::monitor::SerialPlotterApp;
use serial_plotter::table::TextMap;

fn test_config() -> AppConfig {
    let mut params = TextMap::new();
    params.insert("FAN_SPEED".to_string(), "MEDIUM".to_string());
    AppConfig {
        product_type: "TEST-100".to_string(),
        serial: SerialConfig {
            baud_rate: 9600,
            parity: ConfigParity::NoParity,
            data_bits: ConfigDataBits::Eight,
            stop_bits: ConfigStopBits::One,
            flow_control: ConfigFlowControl::NoFlowControl,
            polling_interval_ms: 50,
        },
        commands: vec![CommandConfig {
            command: "get temp".to_string(),
            plots: vec![PlotConfig {
                name: "Temperature (C)".to_string(),
                data_key: "temp=".to_string(),
            }],
        }],
        product_parameters: params,
    }
}

#[test]
fn test_config_loading_and_state_setup() {
    let mut app: SerialPlotterApp<[f64; 2]> = SerialPlotterApp::new(&Vec::new());
    app.config_file_path = "test_config.json".to_string();
    app.load_config(Ok(test_config()));

    assert!(app.loaded_config.is_some(), "Config should be loaded.");
    let config = app.loaded_config.as_ref().unwrap();

    assert_eq!(config.serial.baud_rate, 9600, "Baud Rate should be set from config.");
    assert_eq!(config.serial.polling_interval_ms, 50, "Polling Interval should be set from config.");
    assert_eq!(config.serial.parity.config_name(), "None", "Parity should be set from config.");

    assert_eq!(app.editable_params.len(), 1, "Should have one editable parameter initialized.");
    assert_eq!(
        app.editable_params.get(&"FAN_SPEED".to_string()).unwrap(),
        "MEDIUM",
        "FAN_SPEED should load default value."
    );
}

#[test]
fn load_builds_one_empty_plot_per_configured_plot_in_order() {
    let mut cfg = test_config();
    cfg.commands.push(CommandConfig {
        command: "get psu".to_string(),
        plots: vec![
            PlotConfig { name: "Voltage".to_string(), data_key: "V=".to_string() },
            PlotConfig { name: "Mode".to_string(), data_key: "mode:".to_string() },
        ],
    });
    let mut app: SerialPlotterApp<[f64; 2]> = SerialPlotterApp::new(&Vec::new());
    app.load_config(Ok(cfg));
    let names: Vec<&str> = app.plot_states.iter().map(|s| s.config.name.as_str()).collect();
    assert_eq!(names, vec!["Temperature (C)", "Voltage", "Mode"]);
    assert!(app.plot_states.iter().all(|s| s.data.is_empty()));
    assert!(app.config_load_error.is_none());
    assert!(app.state_values.is_empty());
}

#[test]
fn load_failure_keeps_message_and_clears_config() {
    let mut app: SerialPlotterApp<[f64; 2]> = SerialPlotterApp::new(&Vec::new());
    app.load_config(Ok(test_config()));
    app.load_config(Err(ConfigLoadError::JsonParse("expected value at line 1".to_string())));
    assert!(app.loaded_config.is_none());
    assert!(app.plot_states.is_empty());
    assert_eq!(
        app.config_load_error.as_deref(),
        Some("JSON Parse Error: expected value at line 1")
    );
    // the parameters of the earlier load stay editable
    assert_eq!(app.editable_params.len(), 1);

    app.load_config(Err(ConfigLoadError::FileRead("No such file".to_string())));
    assert_eq!(app.config_load_error.as_deref(), Some("File Read Error: No such file"));
}

#[test]
fn config_names_match_file_spelling() {
    assert_eq!(ConfigParity::Odd.config_name(), "Odd");
    assert_eq!(ConfigParity::Even.config_name(), "Even");
    assert_eq!(ConfigStopBits::Two.config_name(), "Two");
    assert_eq!(ConfigDataBits::Seven.config_name(), "Seven");
    assert_eq!(ConfigDataBits::Five.config_name(), "Five");
    assert_eq!(ConfigFlowControl::NoFlowControl.config_name(), "None");
    assert_eq!(ConfigFlowControl::Hardware.config_name(), "Hardware");
}

#[test]
fn plot_configs_flattens_commands_in_order() {
    let cmds = vec![
        CommandConfig {
            command: "a".to_string(),
            plots: vec![
                PlotConfig { name: "A1".to_string(), data_key: "a1=".to_string() },
                PlotConfig { name: "A2".to_string(), data_key: "a2=".to_string() },
            ],
        },
        CommandConfig { command: "b".to_string(), plots: vec![] },
        CommandConfig {
            command: "c".to_string(),
            plots: vec![PlotConfig { name: "C1".to_string(), data_key: "c1=".to_string() }],
        },
    ];
    let plots = plot_configs(&cmds);
    let names: Vec<&str> = plots.iter().map(|p| p.name.as_str()).collect();
    assert_eq!(names, vec!["A1", "A2", "C1"]);
    let copy = clone_commands(&cmds);
    assert_eq!(copy.len(), 3);
    assert_eq!(copy[2].command, "c");
    assert_eq!(copy[0].plots[1].data_key, "a2=");
}
