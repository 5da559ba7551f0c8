use owl_recorder::events::{Event, Pid, PressState};
use owl_recorder::session::strip_extended_prefix;
use owl_recorder::hardware::{CpuSpecs, GpuSpecs, HardwareSpecs, SystemSpecs};
use owl_recorder::session::Recording;

fn sample_specs() -> HardwareSpecs {
    let mut gpus = Vec::new();
    gpus.push(GpuSpecs { name: "NVIDIA GeForce RTX 3080".to_string(), vendor: "NVIDIA".to_string() });
    HardwareSpecs {
        cpu: CpuSpecs {
            name: "cpu0".to_string(),
            cores: 16,
            frequency_mhz: 3600,
            vendor: "GenuineIntel".to_string(),
            brand: "Core i7".to_string(),
        },
        gpus,
        system: SystemSpecs {
            os_name: "Windows".to_string(),
            os_version: "11".to_string(),
            kernel_version: "10.0.22631".to_string(),
            hostname: "gamer-pc".to_string(),
            total_memory_bytes: 1 << 30,
        },
    }
}

#[test]
fn session_records_and_closes() {
    let (mut session, lines) = Recording::start(
        "doom.exe".to_string(),
        Pid(1234),
        99,
        1_700_000_000,
        250_000,
        5_000_000,
    );
    assert_eq!(lines.len(), 2);
    assert_eq!(lines[0], "timestamp,event_type,event_args\n");
    assert_eq!(lines[1], "1700000000.250000,START,\"[]\"\n");
    assert_eq!(session.game_exe(), "doom.exe");
    assert_eq!(session.pid(), Pid(1234));
    assert_eq!(session.window(), 99);
    assert_eq!(session.elapsed_micros(6_500_000), 1_500_000);
    assert_eq!(session.elapsed_micros(4_000_000), 0);
    let row = session.seen_input(
        &Event::MousePress { key: 1, press_state: PressState::Pressed },
        1_700_000_001,
        0,
    );
    assert_eq!(row, "1700000001.000000,MOUSE_BUTTON,\"[1,true]\"\n");
    let (end_row, _doc) = session.stop(1_700_000_002, 0, 6_500_000, "HWID-1", None);
    assert_eq!(end_row, "1700000002.000000,END,\"[]\"\n");
}

#[test]
fn metadata_document_fields() {
    let (session, _lines) = Recording::start(
        "doom.exe".to_string(),
        Pid(1234),
        99,
        1_700_000_000,
        0,
        5_000_000,
    );
    let (_end_row, doc) = session.stop(1_700_000_002, 0, 6_500_000, "HWID-1", None);
    let v: serde_json::Value = serde_json::from_str(&doc).unwrap();
    assert_eq!(v["game_exe"], "doom.exe");
    assert_eq!(v["hardware_id"], "HWID-1");
    assert_eq!(v["start_timestamp"], 1_700_000_000u64);
    assert_eq!(v["end_timestamp"], 1_700_000_002u64);
    assert_eq!(v["duration_seconds"].as_f64().unwrap(), 1.5);
    assert_eq!(v["session_id"].as_str().unwrap().len(), 36);
    assert!(v["hardware_specs"].is_null());
}

#[test]
fn metadata_document_with_hardware_specs() {
    let (session, _lines) = Recording::start(
        "doom.exe".to_string(),
        Pid(1),
        2,
        100,
        0,
        0,
    );
    let (_end_row, doc) = session.stop(101, 0, 1_000_000, "id", Some(&sample_specs()));
    let v: serde_json::Value = serde_json::from_str(&doc).unwrap();
    let hw = &v["hardware_specs"];
    assert_eq!(hw["cpu"]["name"], "cpu0");
    assert_eq!(hw["cpu"]["cores"], 16);
    assert_eq!(hw["cpu"]["frequency_mhz"], 3600);
    assert_eq!(hw["gpus"][0]["vendor"], "NVIDIA");
    assert_eq!(hw["system"]["hostname"], "gamer-pc");
    // One gibibyte reports as exactly 1.0 GB.
    assert_eq!(hw["system"]["total_memory_gb"].as_f64().unwrap(), 1.0);
}

#[test]
fn metadata_escapes_json_strings() {
    let (session, _lines) = Recording::start(
        "we\"ird\\game.exe".to_string(),
        Pid(1),
        2,
        100,
        0,
        0,
    );
    let (_end_row, doc) = session.stop(101, 0, 500_000, "id\twith\ttabs", None);
    let v: serde_json::Value = serde_json::from_str(&doc).unwrap();
    assert_eq!(v["game_exe"], "we\"ird\\game.exe");
    assert_eq!(v["hardware_id"], "id\twith\ttabs");
}

#[test]
fn extended_length_prefix_is_stripped() {
    assert_eq!(
        strip_extended_prefix("\\\\?\\C:\\clips\\17"),
        "C:\\clips\\17"
    );
    assert_eq!(strip_extended_prefix("C:\\clips"), "C:\\clips");
    assert_eq!(strip_extended_prefix(""), "");
    assert_eq!(strip_extended_prefix("\\\\?\\"), "");
}

#[test]
fn session_ids_are_distinct() {
    let (s1, _) = Recording::start("a.exe".to_string(), Pid(1), 0, 0, 0, 0);
    let (s2, _) = Recording::start("a.exe".to_string(), Pid(1), 0, 0, 0, 0);
    let (_, d1) = s1.stop(1, 0, 0, "x", None);
    let (_, d2) = s2.stop(1, 0, 0, "x", None);
    let v1: serde_json::Value = serde_json::from_str(&d1).unwrap();
    let v2: serde_json::Value = serde_json::from_str(&d2).unwrap();
    assert_ne!(v1["session_id"], v2["session_id"]);
}
