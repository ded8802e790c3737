//! Finding emulators, devices and windows.
use ruler_app::config::RulerConfig;
use ruler_app::target_discovery::adb::{
    adb_connected_serials, adb_serial_for_address, adb_serial_for_ports,
    ldplayer_adb_serial_for_instance, normalize_adb_host, serial_port,
};
use ruler_app::target_discovery::bundled_adb::discover_emulator_adb_paths;
use ruler_app::target_discovery::facts::{ask, Fact, Question};
use ruler_app::target_discovery::ldplayer::{
    parse_ldplayer_instance_for_pid, parse_ldplayer_instances,
    resolve_ldplayer_install_path_for_process,
};
use ruler_app::target_discovery::mumu::{
    parse_mumu_instance, parse_mumu_manager_infos, resolve_mumu_install_path_for_process,
    resolve_mumu_manager_path, Surroundings,
};
use ruler_app::target_discovery::process::{
    related_listener_ports, ProcessInfo, TcpListener,
};
use ruler_app::target_discovery::windows::{windows_for_pid, WindowInfo};
use ruler_app::target_discovery::{
    discover_targets, latency_class, LatencyClass, TargetCandidate, TargetKind,
};
use serde_json::Value;
use std::time::Duration;

fn process(
    name: &str,
    process_id: u32,
    parent_process_id: Option<u32>,
    executable_path: Option<&str>,
) -> ProcessInfo {
    ProcessInfo {
        name: name.to_string(),
        process_id,
        parent_process_id,
        executable_path: executable_path.map(str::to_string),
        command_line: None,
        creation_time: 100,
    }
}

fn copy(process: &ProcessInfo) -> ProcessInfo {
    ProcessInfo {
        name: process.name.clone(),
        process_id: process.process_id,
        parent_process_id: process.parent_process_id,
        executable_path: process.executable_path.clone(),
        command_line: process.command_line.clone(),
        creation_time: process.creation_time,
    }
}

/// Searches, finding out one thing after the other, until everything is known.
fn settle<T>(
    answer: impl Fn(&Question) -> Option<&'static str>,
    search: impl Fn(&mut Vec<Fact>) -> T,
) -> (T, Vec<Fact>) {
    let mut facts: Vec<Fact> = Vec::new();
    loop {
        let known = facts.len();
        let found = search(&mut facts);
        if facts.len() == known {
            return (found, facts);
        }
        facts.truncate(known + 1);
        let reply = answer(&facts[known].question).map(str::to_string);
        facts[known].answer = reply;
    }
}

fn there(path: &str, files: &[&str]) -> Option<&'static str> {
    files.contains(&path.replace('\\', "/").as_str()).then_some("")
}

#[test]
fn latency_boundaries_match_plan() {
    assert_eq!(
        latency_class(Duration::from_micros(7999).as_nanos()),
        LatencyClass::PaleGreen
    );
    assert_eq!(latency_class(Duration::from_millis(8).as_nanos()), LatencyClass::Green);
    assert_eq!(
        latency_class(Duration::from_millis(16).as_nanos()),
        LatencyClass::Green
    );
    assert_eq!(
        latency_class(Duration::from_millis(17).as_nanos()),
        LatencyClass::Yellow
    );
    assert_eq!(
        latency_class(Duration::from_millis(33).as_nanos()),
        LatencyClass::Yellow
    );
    assert_eq!(
        latency_class(Duration::from_millis(34).as_nanos()),
        LatencyClass::Orange
    );
    assert_eq!(
        latency_class(Duration::from_millis(166).as_nanos()),
        LatencyClass::Orange
    );
    assert_eq!(latency_class(Duration::from_millis(167).as_nanos()), LatencyClass::Red);
}

#[test]
fn matches_ldplayer_pid_from_list2() {
    let output = "0,name,top,1,0,1234,4321,0,0\n1,name2,top,1,0,5678,8765,0,0";
    assert_eq!(parse_ldplayer_instance_for_pid(output, 5678), Some(1));
    assert_eq!(parse_ldplayer_instance_for_pid(output, 4321), Some(0));
}

#[test]
fn parses_ldplayer_instances_from_list2() {
    let output = "0,雷电模拟器,2032678,1704928,1,7456,3500,1280,720,240\n\
                  1,雷电模拟器-1,852422,590830,1,3772,3180,1920,1080,280";
    let instances = parse_ldplayer_instances(output);

    assert_eq!(instances.len(), 2);
    assert_eq!(instances[0].index, 0);
    assert_eq!(instances[0].name, "雷电模拟器");
    assert_eq!(instances[0].player_pid, 7456);
    assert_eq!(instances[0].vbox_pid, 3500);
    assert_eq!(instances[1].index, 1);
}

#[test]
fn ldplayer_install_path_can_come_from_dnplayer_when_headless_is_box() {
    let headless = process(
        "Ld9BoxHeadless.exe",
        1,
        None,
        Some("C:\\Program Files\\ldplayer9box\\Ld9BoxHeadless.exe"),
    );
    let dnplayer = process("dnplayer.exe", 2, None, Some("D:/ld-install/dnplayer.exe"));
    let processes = vec![copy(&headless), dnplayer];
    let (resolved, _) = settle(
        |question| match question {
            Question::Exists { path } => there(
                path,
                &["D:/ld-install/dnconsole.exe", "D:/ld-install/ldopengl64.dll"],
            ),
            _ => None,
        },
        |facts| resolve_ldplayer_install_path_for_process(facts, &headless, &processes),
    );

    assert_eq!(resolved.as_deref(), Some("D:/ld-install"));
}

#[test]
fn parses_mumu_manager_object_output() {
    let output = r#"{
        "0": {
            "index": "0",
            "name": "主模拟器",
            "adb_host_ip": "localhost",
            "adb_port": 16384
        },
        "1": {
            "index": 1,
            "name": "副模拟器",
            "adb_host_ip": "127.0.0.1",
            "adb_port": "16416"
        }
    }"#;
    let infos = parse_mumu_manager_infos(output);

    assert_eq!(infos.len(), 2);
    assert_eq!(infos[0].index, 0);
    assert_eq!(infos[0].name.as_deref(), Some("主模拟器"));
    assert_eq!(infos[0].host, "127.0.0.1");
    assert_eq!(infos[0].port, 16384);
    assert_eq!(infos[1].index, 1);
    assert_eq!(infos[1].port, 16416);
}

#[test]
fn parses_mumu_manager_single_output() {
    let output = r#"{"index":"2","name":"MuMu-2","adb_host_ip":"0.0.0.0","adb_port":16448}"#;
    let infos = parse_mumu_manager_infos(output);

    assert_eq!(infos.len(), 1);
    assert_eq!(infos[0].index, 2);
    assert_eq!(infos[0].host, "127.0.0.1");
    assert_eq!(infos[0].port, 16448);
}

#[test]
fn mumu_instances_are_found_under_any_key() {
    let info = |index: u32| format!(r#"{{"index":{index},"adb_port":{}}}"#, 16384 + index);
    let object = format!(
        r#"{{"":{},"/":{},"a/~b":{},"note":"none","~1":{},"~01":{},"~":[{}]}}"#,
        info(0),
        info(1),
        info(2),
        info(3),
        info(4),
        info(5)
    );
    let found: Vec<u32> = parse_mumu_manager_infos(&object).iter().map(|info| info.index).collect();
    assert_eq!(found, vec![0, 1, 2, 4, 3]);

    let elements: Vec<String> = (0..12).map(info).collect();
    let array = format!("[null,{},7]", elements.join(","));
    let found: Vec<u32> = parse_mumu_manager_infos(&array).iter().map(|info| info.index).collect();
    assert_eq!(found, (0..12).collect::<Vec<u32>>());
    assert!(parse_mumu_manager_infos("7").is_empty());
    assert!(parse_mumu_manager_infos("{").is_empty());
}

#[test]
fn mumu_names_that_are_numbers_keep_their_digits() {
    let members = |name: &str| format!(r#"{{"index":0,"name":{name},"adb_port":16384}}"#);
    let mut fractions = vec!["7".to_string(), "1e300".to_string(), "-0.0".to_string()];
    for step in 1..400u64 {
        let digits = step.wrapping_mul(0x9e37_79b9_7f4a_7c15) % 10_000_000_000_000_000_000;
        fractions.push(format!("0.{digits:019}"));
        fractions.push(format!("{step}.{digits:019}e{}", step % 40));
    }
    for fraction in fractions {
        let value: Value = serde_json::from_str(&fraction).expect("a number");
        let nested = parse_mumu_manager_infos(&format!(r#"{{"0":{}}}"#, members(&fraction)));
        let alone = parse_mumu_manager_infos(&members(&fraction));
        assert_eq!(nested.len(), 1);
        assert_eq!(nested[0].name, Some(value.to_string()));
        assert_eq!(nested[0].name, alone[0].name);
    }
}

#[test]
fn parses_mumu_instance_markers() {
    let process = ProcessInfo {
        name: "MuMuVMMHeadless.exe".to_string(),
        process_id: 1,
        parent_process_id: None,
        executable_path: Some("D:\\MuMu\\vms\\MuMuPlayer-12.0-3\\x.exe".to_string()),
        command_line: Some("--instance_index=2".to_string()),
        creation_time: 100,
    };
    assert_eq!(parse_mumu_instance(&process), Some(2));
}

#[test]
fn mumu_install_path_can_come_from_device_process_when_headless_is_hypervisor() {
    let headless = process(
        "MuMuVMMHeadless.exe",
        1,
        None,
        Some("C:\\Program Files\\MuMuVMMVbox\\Hypervisor\\MuMuVMMHeadless.exe"),
    );
    let mut device = process(
        "MuMuNxDevice.exe",
        2,
        None,
        Some("D:/mumu-install/nx_device\\12.0\\shell\\MuMuNxDevice.exe"),
    );
    device.command_line =
        Some("D:/mumu-install\\vms\\MuMuPlayer-12.0-0\\logs\\VBox.log".to_string());
    let processes = vec![copy(&headless), device];
    let (resolved, _) = settle(
        |question| match question {
            Question::Exists { path } => there(
                path,
                &["D:/mumu-install/nx_device/12.0/shell/sdk/external_renderer_ipc.dll"],
            ),
            _ => None,
        },
        |facts| resolve_mumu_install_path_for_process(facts, &headless, &processes),
    );

    assert_eq!(resolved.as_deref(), Some("D:/mumu-install"));
}

#[test]
fn mumu_manager_path_can_come_from_v5_layout() {
    let process = process(
        "MuMuNxDevice.exe",
        1,
        None,
        Some("D:/mumu-v5-manager/nx_device/12.0/shell/MuMuNxDevice.exe"),
    );
    let (resolved, _) = settle(
        |question| match question {
            Question::Exists { path } => there(
                path,
                &["D:/mumu-v5-manager/nx_device/12.0/shell/MuMuManager.exe"],
            ),
            _ => None,
        },
        |facts| resolve_mumu_manager_path(facts, "D:/mumu-v5-manager", &process),
    );

    let resolved = resolved.map(|path| path.replace('\\', "/"));
    assert_eq!(
        resolved.as_deref(),
        Some("D:/mumu-v5-manager/nx_device/12.0/shell/MuMuManager.exe")
    );
}

#[test]
fn related_listener_ports_include_same_install_root_processes() {
    let root = process(
        "MuMuVMMHeadless.exe",
        10,
        None,
        Some("D:\\MuMu\\shell\\MuMuVMMHeadless.exe"),
    );
    let adb = process("adb.exe", 20, None, Some("D:\\MuMu\\adb.exe"));
    let unrelated = process("adb.exe", 30, None, Some("D:\\Other\\adb.exe"));
    let processes = vec![copy(&root), adb, unrelated];
    let listeners = vec![
        TcpListener {
            port: 16384,
            pid: 20,
        },
        TcpListener {
            port: 21503,
            pid: 30,
        },
    ];

    assert_eq!(
        related_listener_ports(&root, Some("D:\\MuMu"), &processes, &listeners),
        vec![16384]
    );
}

#[test]
fn unknown_answers_are_assumed_and_written_down_once() {
    let mut facts: Vec<Fact> = Vec::new();
    let question = || Question::Connect { serial: "127.0.0.1:5555".to_string() };
    assert_eq!(ask(&mut facts, question()), None);
    assert_eq!(ask(&mut facts, question()), None);
    assert_eq!(facts.len(), 1);
    assert_eq!(facts[0].question, question());
    facts[0].answer = Some("connected".to_string());
    assert_eq!(ask(&mut facts, question()).as_deref(), Some("connected"));
}

#[test]
fn devices_are_listed_when_they_are_ready() {
    let output = "List of devices attached\nemulator-5554\tdevice\n127.0.0.1:5555\toffline\n\
                  R58M\tdevice product:x\n";
    assert_eq!(adb_connected_serials(output), ["emulator-5554", "R58M"]);
    assert_eq!(serial_port("127.0.0.1:5555"), Some(5555));
    assert_eq!(serial_port("emulator-5554"), None);
    assert_eq!(normalize_adb_host(" localhost "), "127.0.0.1");
    assert_eq!(normalize_adb_host("10.0.0.2"), "10.0.0.2");
    let connected = vec!["emulator-5558".to_string()];
    assert_eq!(
        ldplayer_adb_serial_for_instance(2, &connected).as_deref(),
        Some("emulator-5558")
    );
    assert_eq!(ldplayer_adb_serial_for_instance(1, &connected), None);
}

fn only_game_on(serial: &'static str) -> impl Fn(&Question) -> Option<&'static str> {
    move |question| match question {
        Question::Connect { serial: s } if s == serial => Some("connected"),
        Question::DeviceState { serial: s } if s == serial => Some("device\n"),
        Question::PackagePath { serial: s, package } if s == serial => {
            (*package == "com.YoStarEN.Arknights").then_some("package:/data/app/base.apk")
        }
        _ => None,
    }
}

#[test]
fn devices_are_connected_to_one_after_the_other() {
    let nothing: Vec<String> = Vec::new();
    let ports = vec![5555, 16384];
    let (device, facts) = settle(only_game_on("127.0.0.1:16384"), |facts| {
        adb_serial_for_ports(facts, &ports, &nothing)
    });
    assert_eq!(device, Some(("127.0.0.1:16384".to_string(), 16384)));
    assert!(matches!(&facts[0].question, Question::Connect { serial } if serial == "127.0.0.1:5555"));

    let (serial, _) = settle(only_game_on("127.0.0.1:7555"), |facts| {
        adb_serial_for_address(facts, "localhost", 7555, &nothing)
    });
    assert_eq!(serial.as_deref(), Some("127.0.0.1:7555"));
}

/// What was asked, in short.
fn asked(facts: &[Fact]) -> Vec<String> {
    facts
        .iter()
        .map(|fact| match &fact.question {
            Question::Connect { serial } => format!("connect {serial}"),
            Question::DeviceState { serial } => format!("state {serial}"),
            Question::PackagePath { serial, .. } => format!("package {serial}"),
            Question::MuMuInfo { .. } => "manager".to_string(),
            Question::InstanceList { .. } => "console".to_string(),
            Question::Exists { path } => format!("exists {path}"),
            Question::IsFile { path } => format!("file {path}"),
        })
        .collect()
}

#[test]
fn devices_are_asked_for_their_state_only_when_connected() {
    let nothing: Vec<String> = Vec::new();
    let (serial, facts) = settle(only_game_on("127.0.0.1:7555"), |facts| {
        adb_serial_for_address(facts, "", 7555, &nothing)
    });
    assert_eq!(serial.as_deref(), Some("127.0.0.1:7555"));
    assert_eq!(asked(&facts), ["connect 127.0.0.1:7555", "state 127.0.0.1:7555"]);

    let (serial, facts) = settle(|_| None, |facts| {
        adb_serial_for_address(facts, "10.0.0.2", 5, &nothing)
    });
    assert_eq!(serial, None);
    assert_eq!(asked(&facts), ["connect 10.0.0.2:5"]);

    let connected = vec!["10.0.0.2:5".to_string()];
    let (_, facts) = settle(|_| None, |facts| {
        adb_serial_for_address(facts, "10.0.0.2", 5, &connected)
    });
    assert_eq!(asked(&facts), ["state 10.0.0.2:5"]);
}

#[test]
fn ports_are_connected_to_after_the_connected_devices() {
    let ports = vec![5555, 7555];
    let connected = vec!["10.0.0.2:7555".to_string()];
    let (device, facts) = settle(only_game_on("10.0.0.2:7555"), |facts| {
        adb_serial_for_ports(facts, &ports, &connected)
    });
    assert_eq!(device, Some(("10.0.0.2:7555".to_string(), 7555)));
    assert!(asked(&facts).iter().all(|question| question == "package 10.0.0.2:7555"));

    let (device, facts) = settle(only_game_on("127.0.0.1:5555"), |facts| {
        adb_serial_for_ports(facts, &ports, &connected)
    });
    assert_eq!(device, Some(("127.0.0.1:5555".to_string(), 5555)));
    let mut order = vec!["package 10.0.0.2:7555".to_string(); 6];
    order.push("connect 127.0.0.1:5555".to_string());
    order.push("state 127.0.0.1:5555".to_string());
    order.extend(vec!["package 127.0.0.1:5555".to_string(); 4]);
    assert_eq!(asked(&facts), order);
}

#[test]
fn searches_connect_to_emulators_alone() {
    let player = process("dnplayer.exe", 7456, None, Some("D:/LD/dnplayer.exe"));
    let mut around = surroundings(vec![player], &["R58M"]);
    around.listeners = vec![
        TcpListener { port: 5557, pid: 7456 },
        TcpListener { port: 5037, pid: 7456 },
        TcpListener { port: 8080, pid: 99 },
    ];
    let windows: Vec<WindowInfo> = Vec::new();
    let game = only_game_on("127.0.0.1:5557");
    let (found, facts) = settle(
        |question| match question {
            Question::Exists { path } => {
                there(path, &["D:/LD/dnconsole.exe", "D:/LD/ldopengl64.dll"])
            }
            Question::InstanceList { .. } => {
                Some("0,LD,2032678,1704928,1,7456,3500,1280,720,240")
            }
            other => game(other),
        },
        |facts| discover_targets(facts, &around, &windows, None),
    );
    assert_eq!(found.len(), 1);
    assert_eq!(found[0].config.device_id.as_deref(), Some("127.0.0.1:5557"));
    let order = asked(&facts);
    let connects: Vec<&String> = order.iter().filter(|q| q.starts_with("connect ")).collect();
    assert_eq!(connects, ["connect 127.0.0.1:5557"]);
    let at = |wanted: &str| order.iter().position(|question| question == wanted);
    assert!(at("console") < at("connect 127.0.0.1:5557"));
    assert!(at("connect 127.0.0.1:5557") < at("state 127.0.0.1:5557"));
    assert!(at("state 127.0.0.1:5557") < at("package 127.0.0.1:5557"));
    assert!(at("package 127.0.0.1:5557") < at("package R58M"));
}

fn surroundings(processes: Vec<ProcessInfo>, connected: &[&str]) -> Surroundings {
    Surroundings {
        processes,
        listeners: Vec::new(),
        connected: connected.iter().map(|serial| serial.to_string()).collect(),
    }
}

fn fingerprints(candidates: &[TargetCandidate]) -> Vec<&str> {
    candidates.iter().map(|candidate| candidate.fingerprint.as_str()).collect()
}

#[test]
fn a_device_with_the_game_is_offered_once() {
    let around = surroundings(Vec::new(), &["R58M", "R58M", "other"]);
    let windows: Vec<WindowInfo> = Vec::new();
    let (found, _) = settle(only_game_on("R58M"), |facts| {
        discover_targets(facts, &around, &windows, None)
    });
    assert_eq!(fingerprints(&found), ["adb:R58M"]);
    assert_eq!(found[0].kind, TargetKind::Adb);
    assert_eq!(found[0].config.device_id.as_deref(), Some("R58M"));
}

#[test]
fn emulators_claim_their_devices() {
    let shell = "D:/MuMu/nx_device/12.0/shell";
    let device = process(
        "MuMuNxDevice.exe",
        4,
        None,
        Some("D:/MuMu/nx_device/12.0/shell/MuMuNxDevice.exe"),
    );
    let around = surroundings(vec![device], &["127.0.0.1:16384"]);
    let windows: Vec<WindowInfo> = Vec::new();
    let game = only_game_on("127.0.0.1:16384");
    let (found, _) = settle(
        |question| match question {
            Question::Exists { path } => {
                let path = path.replace('\\', "/");
                (path == format!("{shell}/sdk/external_renderer_ipc.dll")
                    || path == format!("{shell}/MuMuManager.exe"))
                .then_some("")
            }
            Question::MuMuInfo { .. } => Some(
                r#"{"index":0,"name":"One","adb_host_ip":"127.0.0.1","adb_port":16384}"#,
            ),
            other => game(other),
        },
        |facts| discover_targets(facts, &around, &windows, None),
    );
    assert_eq!(found.len(), 1);
    assert_eq!(found[0].kind, TargetKind::MuMu);
    assert_eq!(found[0].name, "One");
    assert_eq!(found[0].config.install_path.as_deref(), Some("D:/MuMu"));
    assert_eq!(found[0].config.instance_index, Some(0));
}

#[test]
fn ldplayer_instances_are_offered() {
    let player = process("dnplayer.exe", 7456, None, Some("D:/LD/dnplayer.exe"));
    let around = surroundings(vec![player], &["emulator-5554"]);
    let windows: Vec<WindowInfo> = Vec::new();
    let game = only_game_on("emulator-5554");
    let (found, _) = settle(
        |question| match question {
            Question::Exists { path } => {
                there(path, &["D:/LD/dnconsole.exe", "D:/LD/ldopengl64.dll"])
            }
            Question::InstanceList { .. } => {
                Some("0,LD,2032678,1704928,1,7456,3500,1280,720,240")
            }
            other => game(other),
        },
        |facts| discover_targets(facts, &around, &windows, None),
    );
    assert_eq!(found.len(), 1);
    assert_eq!(found[0].kind, TargetKind::LDPlayer);
    assert_eq!(found[0].name, "LD");
    assert_eq!(found[0].config.device_id.as_deref(), Some("emulator-5554"));
}

fn window(hwnd: isize, process_id: u32, is_visible: bool, title: &str) -> WindowInfo {
    WindowInfo {
        hwnd,
        process_id,
        is_visible,
        title: title.to_string(),
        class_name: "UnityWndClass".to_string(),
    }
}

#[test]
fn windows_of_the_game_are_offered() {
    let game = process("Arknights.exe", 9, None, Some("D:/Games/Arknights.exe"));
    let around = surroundings(vec![game], &[]);
    let windows = vec![window(11, 9, true, "Arknights"), window(12, 8, true, "Other")];
    let (found, _) = settle(|_| None, |facts| discover_targets(facts, &around, &windows, None));
    assert!(found.iter().all(|candidate| candidate.kind == TargetKind::Windows));
    assert_eq!(found.len(), 1);
    assert_eq!(found[0].config.window_handle, Some(11));

    let shown = windows_for_pid(&windows, 8);
    assert_eq!(shown.len(), 1);
    assert_eq!(shown[0].hwnd, 12);
}

#[test]
fn bundled_programs_are_files() {
    let player = process("dnplayer.exe", 1, None, Some("D:/LD/dnplayer.exe"));
    let processes = vec![copy(&player), player];
    let (paths, _) = settle(
        |question| match question {
            Question::Exists { path } => {
                there(path, &["D:/LD/dnconsole.exe", "D:/LD/ldopengl64.dll"])
            }
            Question::IsFile { path } => there(path, &["D:/LD/adb.exe"]),
            _ => None,
        },
        |facts| discover_emulator_adb_paths(facts, &processes),
    );
    assert_eq!(paths, [r"D:/LD\adb.exe"]);

    let shell = "D:/MuMu/nx_device/12.0/shell";
    let device = process("MuMuNxDevice.exe", 4, None, Some("D:/MuMu/shell/MuMuNxDevice.exe"));
    let processes = vec![
        device,
        process("dnplayer.exe", 1, None, Some("D:/LD/dnplayer.exe")),
    ];
    let (paths, facts) = settle(
        |question| match question {
            Question::Exists { path } => {
                let path = path.replace('\\', "/");
                (path == format!("{shell}/sdk/external_renderer_ipc.dll")
                    || path == "D:/MuMu/shell/MuMuManager.exe"
                    || path.starts_with("D:/LD/"))
                .then_some("")
            }
            Question::IsFile { .. } => Some(""),
            _ => None,
        },
        |facts| discover_emulator_adb_paths(facts, &processes),
    );
    assert_eq!(paths.len(), 5);
    let order = asked(&facts);
    let at = |wanted: &str| order.iter().position(|q| q.replace('\\', "/").contains(wanted));
    assert!(at("file D:/MuMu/adb.exe") < at("exists D:/LD/dnconsole.exe"));
}

#[test]
fn targets_keep_the_choices_of_last_time() {
    let mut facts: Vec<Fact> = Vec::new();
    let around = surroundings(Vec::new(), &[]);
    let windows: Vec<WindowInfo> = Vec::new();
    let previous: Option<&RulerConfig> = None;
    assert!(discover_targets(&mut facts, &around, &windows, previous).is_empty());
    assert!(facts.is_empty());
}
