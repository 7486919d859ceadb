use std::path::Path;

use roof_control_hub::service::{
    camera_log_path_at, content_disposition_value, controller_log_dir, describe_port,
    download_log_name, list_csv_logs, log_path_at, new_camera_log_path, new_log_file_name,
    new_log_path, request_path, route_request, LogFileEntry, Method, PortKind, Route,
};

#[test]
fn request_paths_drop_the_query() {
    assert_eq!(request_path("/api/logs?x=1?y"), "/api/logs");
    assert_eq!(request_path("/"), "/");
    assert_eq!(request_path(""), "");
    assert_eq!(request_path("?q"), "");
}

#[test]
fn requests_are_routed() {
    assert_eq!(route_request(Method::Get, "/"), Route::Index);
    assert_eq!(route_request(Method::Get, "/api/ports"), Route::ListPorts);
    assert_eq!(route_request(Method::Get, "/api/telemetry"), Route::Telemetry);
    assert_eq!(route_request(Method::Get, "/api/logs"), Route::Logs);
    assert_eq!(route_request(Method::Get, "/api/startup"), Route::StartupStatus);
    assert_eq!(route_request(Method::Get, "/api/logs/a.csv"), Route::DownloadLog);
    assert_eq!(route_request(Method::Get, "/api/connect"), Route::NotFound);
    assert_eq!(route_request(Method::Post, "/api/connect"), Route::Connect);
    assert_eq!(route_request(Method::Post, "/api/disconnect"), Route::Disconnect);
    assert_eq!(route_request(Method::Post, "/api/command"), Route::Command);
    assert_eq!(route_request(Method::Post, "/api/settings"), Route::Settings);
    assert_eq!(route_request(Method::Post, "/api/mode"), Route::Mode);
    assert_eq!(route_request(Method::Post, "/api/startup/reset"), Route::StartupReset);
    assert_eq!(route_request(Method::Post, "/api/logs/a.csv"), Route::NotFound);
    assert_eq!(route_request(Method::Other, "/"), Route::NotFound);
}

#[test]
fn log_file_names() {
    assert_eq!(controller_log_dir(), "controller_logs");
    assert_eq!(new_log_file_name(1700000000123), "controller_1700000000123.csv");
    assert_eq!(log_path_at(0), "controller_logs/controller_0.csv");
    assert_eq!(camera_log_path_at(42), "controller_logs/camera_alignment_42.csv");
}

#[test]
fn new_log_paths_are_named_by_the_clock() {
    for (path, prefix) in [
        (new_log_path(), "controller_logs/controller_"),
        (new_camera_log_path(), "controller_logs/camera_alignment_"),
    ] {
        let digits = path.strip_prefix(prefix).and_then(|rest| rest.strip_suffix(".csv"));
        let digits = digits.expect("a log path");
        assert!(!digits.is_empty() && digits.chars().all(|c| c.is_ascii_digit()), "{path}");
        assert!(digits.parse::<u128>().unwrap() > 1_600_000_000_000);
    }
}

fn std_download(path: &str) -> Option<String> {
    let filename = path.trim_start_matches("/api/logs/");
    Path::new(filename)
        .file_name()
        .and_then(|value| value.to_str())
        .filter(|value| value.ends_with(".csv"))
        .map(|value| value.to_string())
}

#[test]
fn downloads_take_the_final_csv_component() {
    let paths = [
        "/api/logs/controller_1.csv",
        "/api/logs/../../etc/passwd.csv",
        "/api/logs/../secret.csv",
        "/api/logs/a.txt",
        "/api/logs/",
        "/api/logs/dir/",
        "/api/logs/x.csv/.",
        "/api/logs/x.csv/..",
        "/api/logs//api/logs/b.csv",
        "/api/logs/.csv",
        "/api/logs/a//b.csv//",
        "/api/logs/./",
        "/api/logs/..",
        "/api/logs/c.csv/./",
    ];
    for path in paths {
        assert_eq!(download_log_name(path), std_download(path), "{path}");
    }
    assert_eq!(download_log_name("/api/logs/../secret.csv"), Some("secret.csv".to_string()));
    let name = new_log_file_name(1234);
    assert_eq!(download_log_name(&format!("/api/logs/{name}")), Some(name));
}

#[test]
fn content_disposition() {
    assert_eq!(
        content_disposition_value("controller_1.csv"),
        "attachment; filename=\"controller_1.csv\""
    );
}

#[test]
fn ports_are_described() {
    let usb = PortKind::Usb {
        manufacturer: Some("Raspberry Pi".to_string()),
        product: Some("Pico".to_string()),
    };
    assert_eq!(describe_port(&usb), "Raspberry Pi Pico");
    let bare = PortKind::Usb { manufacturer: None, product: None };
    assert_eq!(describe_port(&bare), "USB serial");
    let blank = PortKind::Usb { manufacturer: Some(String::new()), product: Some(" x ".to_string()) };
    assert_eq!(describe_port(&blank), "x");
    assert_eq!(describe_port(&PortKind::Bluetooth), "Bluetooth");
    assert_eq!(describe_port(&PortKind::Pci), "PCI");
    assert_eq!(describe_port(&PortKind::Unknown), "Unknown");
}

fn entry(name: &str, size: u64) -> LogFileEntry {
    LogFileEntry { name: name.to_string(), size }
}

#[test]
fn logs_are_listed_newest_first() {
    let listed = list_csv_logs(vec![
        entry("controller_10.csv", 1),
        entry("notes.txt", 2),
        entry("controller_9.csv", 3),
        entry(".csv", 4),
        entry("camera_alignment_5.csv", 5),
        entry("controller_11.csv", 6),
    ]);
    let names: Vec<&str> = listed.iter().map(|e| e.name.as_str()).collect();
    assert_eq!(
        names,
        ["controller_9.csv", "controller_11.csv", "controller_10.csv", "camera_alignment_5.csv"]
    );
    assert_eq!(listed[0].size, 3);
    assert!(list_csv_logs(Vec::new()).is_empty());
}
