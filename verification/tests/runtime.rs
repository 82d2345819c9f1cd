use actias::bundle::{Bundle, File};
use actias::crypto::{CryptoExtension, JwtExtension, WasmExtension};
use actias::error::ScriptError;
use actias::http::HttpExtension;
use actias::ids::{id_text, parse_id};
use actias::kv::namespace::KvExtension;
use actias::runtime::{
    do_file, entry_module, get_file, is_module, listener_slot, plan_require,
    register_extensions, ExtensionInfo, JsonExtension, LuaModule, Registration, RequirePlan,
    Timer, UuidExtension, MEMORY_LIMIT, REGISTRATION_LIMIT, TICKS_PER_SECOND,
};

fn file(name: &str, path: &str, content: &[u8]) -> File {
    File {
        file_name: name.to_string(),
        file_path: path.to_string(),
        content: content.to_vec(),
        revision_id: None,
    }
}

fn bundle() -> Bundle {
    Bundle {
        entry_point: "main.lua".to_string(),
        files: vec![
            file("main.lua", "main.lua", b"return 1"),
            file("util.lua", "lib/util.lua", b"return 2"),
            file("data.bin", "assets/data.bin", &[0xff, 0xfe, 0x00]),
            file("plain", "plain", b"return 3"),
        ],
    }
}

#[test]
fn the_memory_limit_is_128_mebibytes() {
    assert_eq!(MEMORY_LIMIT, 128 * 1024 * 1024);
    assert_eq!(REGISTRATION_LIMIT, 1);
    assert_eq!(TICKS_PER_SECOND, 1_000_000_000);
}

#[test]
fn a_clock_that_was_not_started_never_stops_a_script() {
    let timer = Timer::new(Some(1));
    assert_eq!(timer.check(u64::MAX), Ok(()));
    let mut unlimited = Timer::new(None);
    unlimited.start_timer(5);
    assert_eq!(unlimited.start_time, None);
    assert_eq!(unlimited.check(u64::MAX), Ok(()));
}

#[test]
fn a_script_is_stopped_at_the_first_tick_after_the_limit() {
    let mut timer = Timer::new(Some(1));
    timer.start_timer(1_000);
    assert_eq!(timer.start_time, Some(1_000));
    assert_eq!(timer.check(1_000), Ok(()));
    assert_eq!(timer.check(1_000 + TICKS_PER_SECOND), Ok(()));
    assert_eq!(
        timer.check(1_000 + TICKS_PER_SECOND + 1),
        Err(ScriptError::RuntimeError("Script timed out, limit is 1 seconds.".to_string()))
    );
    assert!(timer.check(1_000 + 2 * TICKS_PER_SECOND).is_err());
    assert!(timer.check(u64::MAX).is_err());
    assert_eq!(timer.check(0), Ok(()));
}

#[test]
fn the_timeout_names_the_limit() {
    let mut timer = Timer::new(Some(30));
    timer.start_timer(0);
    assert_eq!(timer.check(30 * TICKS_PER_SECOND), Ok(()));
    assert_eq!(
        timer.check(30 * TICKS_PER_SECOND + 1),
        Err(ScriptError::RuntimeError("Script timed out, limit is 30 seconds.".to_string()))
    );
}

#[test]
fn a_limit_of_zero_stops_at_the_first_tick_that_passes() {
    let mut timer = Timer::new(Some(0));
    timer.start_timer(5);
    assert_eq!(timer.check(5), Ok(()));
    assert!(timer.check(6).is_err());
}

#[test]
fn a_limit_too_long_to_pass_never_stops_a_script() {
    let mut timer = Timer::new(Some(u64::MAX));
    timer.start_timer(0);
    assert_eq!(timer.check(u64::MAX), Ok(()));
}

#[test]
fn once_the_time_is_up_it_stays_up() {
    let mut timer = Timer::new(Some(2));
    timer.start_timer(10);
    let first = 10 + 2 * TICKS_PER_SECOND + 1;
    for later in [first, first + 1, first + TICKS_PER_SECOND, u64::MAX] {
        assert!(timer.check(later).is_err());
    }
}

#[test]
fn the_entry_point_runs_under_a_one_second_clock() {
    let timer = Timer::registration(7);
    assert_eq!(timer, Timer { start_time: Some(7), time_limit: Some(1) });
    assert_eq!(timer.check(7 + TICKS_PER_SECOND), Ok(()));
    assert!(timer.check(7 + TICKS_PER_SECOND + 1).is_err());
}

#[test]
fn the_clock_rests_when_the_entry_point_has_run() {
    for limit in [None, Some(0), Some(1), Some(3600)] {
        let timer = Timer::after_registration(limit);
        assert_eq!(timer, Timer { start_time: None, time_limit: limit });
        assert_eq!(timer.check(u64::MAX), Ok(()));
    }
}

#[test]
fn fetch_is_the_only_event() {
    assert_eq!(listener_slot("fetch"), Ok("listener_fetch".to_string()));
    for event in ["", "Fetch", "fetch ", "request", "listener_fetch"] {
        assert_eq!(
            listener_slot(event),
            Err(ScriptError::RuntimeError("Invalid event specified.".to_string()))
        );
    }
}

#[test]
fn a_module_is_found_by_its_dotted_path() {
    assert!(is_module("lib/util.lua", "lib.util.lua"));
    assert!(is_module("lib/util.lua", "lib.util"));
    assert!(is_module("lib/util", "lib.util.lua"));
    assert!(is_module("main.lua", "main"));
    assert!(is_module("plain", "plain"));
    assert!(!is_module("lib/util.lua", "lib/util.lua"));
    assert!(!is_module("lib/util.lua", "util"));
    assert!(!is_module("lib/util.lua", "lib.util.luau"));
    assert!(!is_module("main.lua", ""));
    assert!(is_module(".lua", ""));
    assert!(is_module("", ".lua"));
}

#[test]
fn a_module_of_the_bundle_is_loaded_once() {
    let bundle = bundle();
    let none: Vec<String> = Vec::new();
    assert_eq!(
        plan_require(&bundle, &none, "lib.util"),
        RequirePlan::Load { file: 1, key: "lib/util.lua".to_string() }
    );
    let loaded = vec!["lib/util.lua".to_string()];
    assert_eq!(
        plan_require(&bundle, &loaded, "lib.util"),
        RequirePlan::Cached { key: "lib/util.lua".to_string() }
    );
    assert_eq!(
        plan_require(&bundle, &loaded, "main"),
        RequirePlan::Load { file: 0, key: "main.lua".to_string() }
    );
}

#[test]
fn files_of_one_name_are_kept_apart() {
    let bundle = Bundle {
        entry_point: "main".to_string(),
        files: vec![file("u", "a/u", b"return 1"), file("u", "b/u", b"return 2")],
    };
    let loaded = vec!["a/u".to_string()];
    assert_eq!(
        plan_require(&bundle, &loaded, "a.u"),
        RequirePlan::Cached { key: "a/u".to_string() }
    );
    assert_eq!(
        plan_require(&bundle, &loaded, "b.u"),
        RequirePlan::Load { file: 1, key: "b/u".to_string() }
    );
    assert_eq!(
        plan_require(&bundle, &vec!["u".to_string()], "b.u"),
        RequirePlan::Load { file: 1, key: "b/u".to_string() }
    );
}

#[test]
fn a_name_that_is_no_file_goes_to_the_registry() {
    let bundle = bundle();
    let cached = vec!["json".to_string()];
    assert_eq!(
        plan_require(&bundle, &cached, "json"),
        RequirePlan::Registry { name: "json".to_string() }
    );
    assert_eq!(
        plan_require(&bundle, &cached, "missing"),
        RequirePlan::Registry { name: "missing".to_string() }
    );
}

#[test]
fn the_entry_point_is_the_file_named_by_the_bundle() {
    let module = entry_module(&bundle()).unwrap().unwrap();
    assert_eq!(module.name, "main.lua");
    assert_eq!(module.source, "return 1");
    let mut other = bundle();
    other.entry_point = "start.lua".to_string();
    assert_eq!(entry_module(&other), Ok(None));
    other.entry_point = "data.bin".to_string();
    assert_eq!(
        entry_module(&other),
        Err(ScriptError::RuntimeError("File is not valid UTF-8.".to_string()))
    );
}

#[test]
fn dofile_takes_the_exact_path() {
    let bundle = bundle();
    let module = do_file(&bundle, "lib/util.lua").unwrap().unwrap();
    assert_eq!(module.name, "util.lua");
    assert_eq!(module.source, "return 2");
    assert_eq!(do_file(&bundle, "lib.util"), Ok(None));
    assert_eq!(do_file(&bundle, "util.lua"), Ok(None));
    assert!(do_file(&bundle, "assets/data.bin").is_err());
}

#[test]
fn getfile_hands_out_the_bytes() {
    let bundle = bundle();
    assert_eq!(get_file(&bundle, "assets/data.bin"), Some(vec![0xff, 0xfe, 0x00]));
    assert_eq!(get_file(&bundle, "main.lua"), Some(b"return 1".to_vec()));
    assert_eq!(get_file(&bundle, "data.bin"), None);
}

#[test]
fn files_are_found_by_path_and_by_name() {
    let bundle = bundle();
    assert_eq!(bundle.find_by_path("lib/util.lua"), Some(1));
    assert_eq!(bundle.find_by_path("util.lua"), None);
    assert_eq!(bundle.find_by_name("util.lua"), Some(1));
    assert_eq!(bundle.find_by_name("lib/util.lua"), None);
    assert_eq!(bundle.entry_file(), Some(0));
    assert_eq!(bundle.duplicate(), bundle);
}

#[test]
fn a_module_is_name_and_source() {
    let module = LuaModule::new("test.lua", "return {}");
    assert_eq!(module.name, "test.lua");
    assert_eq!(module.source, "return {}");
    assert_eq!(module.name(), "test.lua");
    assert_eq!(module.source(), b"return {}".to_vec());
    let from = LuaModule::from_file("lib/util.lua", &bundle().files[1]).unwrap();
    assert_eq!(from, LuaModule::new("lib/util.lua", "return 2"));
}

#[test]
fn extensions_say_what_they_are() {
    let infos = vec![
        JsonExtension.extension_info(),
        UuidExtension.extension_info(),
        HttpExtension.extension_info(),
        CryptoExtension.extension_info(),
        JwtExtension.extension_info(),
        KvExtension { project_id: id_text(1) }.extension_info(),
        WasmExtension.extension_info(),
    ];
    let names: Vec<&str> = infos.iter().map(|i| i.name).collect();
    assert_eq!(names, vec!["json", "uuid", "http", "crypto", "jwt", "kv", "wasm"]);
    assert!(infos.iter().all(|i| i.default));
    assert_eq!(infos[0].description, "Operations for creating/parsing JSON data.");
    assert_eq!(infos[1].description, "UUID module for generating UUIDs.");
    assert_eq!(infos[2].description, "HTTP operations");
    assert_eq!(infos[5].description, "Key Value store for persistent data");
}

#[test]
fn extensions_are_installed_under_their_names() {
    let extensions = vec![
        JsonExtension.extension_info(),
        ExtensionInfo { name: "hidden", description: "not a global", default: false },
    ];
    assert_eq!(
        register_extensions(&extensions),
        vec![
            Registration { module: "json".to_string(), global: true },
            Registration { module: "hidden".to_string(), global: false },
        ]
    );
    assert!(register_extensions(&Vec::new()).is_empty());
}

#[test]
fn the_uuid_extension_makes_identifiers() {
    let a = UuidExtension.v4();
    let b = UuidExtension.v4();
    assert_ne!(a, b);
    assert_eq!(a.len(), 36);
    assert!(parse_id(&a).is_some());
    assert_eq!(a.as_bytes()[14], b'4');
}
