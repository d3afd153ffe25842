use plugin_host::commands::Command;
use plugin_host::commands::CommandQueue;
use plugin_host::commands::handle_archive_event;
use plugin_host::errors::PluginError;
use plugin_host::interface::InstanceTable;
use plugin_host::interface::NULL_HANDLE;
use plugin_host::interface::Plugin;
use plugin_host::interface::PluginWrapper;
use plugin_host::interface::create_plugin_instance;
use plugin_host::interface::destroy_plugin_instance;
use plugin_host::interface::execute_plugin;
use plugin_host::interface::plugin_name;
use plugin_host::manifest::Platform;
use plugin_host::manifest::get_library_path;
use plugin_host::manifest::parse_manifest;
use plugin_host::manifest::plan_batch;
use plugin_host::manifest::plan_load;
use plugin_host::registry::PluginManager;
use plugin_host::text::chars_range_to_string;
use plugin_host::text::chars_to_string;

struct TestPlugin;

impl Plugin for TestPlugin {
    fn name(&self) -> &'static str {
        "TestPlugin"
    }

    fn execute(&self) {
        println!("TestPlugin executed");
    }
}

fn chars(s: &str) -> Vec<char> {
    s.chars().collect()
}

#[test]
fn test_plugin() {
    let plugin = TestPlugin;
    plugin.execute();
    assert_eq!(plugin.name(), "TestPlugin");
}

#[test]
fn test_create_and_destroy_plugin_instance() {
    let mut table = InstanceTable::new();
    let plugin: Box<dyn Plugin> = Box::new(TestPlugin);
    let plugin_handle = create_plugin_instance(&mut table, plugin);

    assert!(plugin_handle != NULL_HANDLE);

    destroy_plugin_instance(&mut table, plugin_handle);
}

#[test]
fn null_handle_is_safe() {
    let mut table = InstanceTable::new();
    let h = create_plugin_instance(&mut table, Box::new(TestPlugin));

    execute_plugin(&table, NULL_HANDLE);
    assert!(plugin_name(&table, NULL_HANDLE).is_none());
    destroy_plugin_instance(&mut table, NULL_HANDLE);

    assert_eq!(plugin_name(&table, h), Some("TestPlugin"));
}

#[test]
fn destroy_twice_is_safe() {
    let mut table = InstanceTable::new();
    let h = create_plugin_instance(&mut table, Box::new(TestPlugin));
    destroy_plugin_instance(&mut table, h);
    destroy_plugin_instance(&mut table, h);
    assert!(plugin_name(&table, h).is_none());
    execute_plugin(&table, h);
}

#[test]
fn wrapper_exposes_plugin() {
    let w = PluginWrapper::new(Box::new(TestPlugin));
    assert_eq!(w.plugin_name(), "TestPlugin");
    w.run();
}

#[test]
fn sample_plugins_register_their_names() {
    let mut table = InstanceTable::new();
    let h1 = plugin_host::example_plugin::create_plugin(&mut table);
    let h2 = plugin_host::hello_world::create_plugin(&mut table);
    assert_eq!(plugin_name(&table, h1), Some("Example Plugin"));
    assert_eq!(plugin_name(&table, h2), Some("HelloWorld"));
    execute_plugin(&table, h1);
    execute_plugin(&table, h2);
}

#[test]
fn parse_simple_manifest() {
    let m = parse_manifest(&chars("{\"name\":\"X\"}")).unwrap();
    assert_eq!(m.name, "X");
}

#[test]
fn parse_manifest_with_whitespace_and_extras() {
    let text = " { \"version\" : 1.5 , \"active\" : true , \"name\" : \"alpha\" , \"note\" : \"hi\" } ";
    let m = parse_manifest(&chars(text)).unwrap();
    assert_eq!(m.name, "alpha");
}

#[test]
fn parse_manifest_decodes_escapes() {
    let m = parse_manifest(&chars("{\"name\":\"a\\\"b\\n\\t\\\\c\"}")).unwrap();
    assert_eq!(m.name, "a\"b\n\t\\c");
}

#[test]
fn parse_manifest_rejects_bad_documents() {
    let bad = [
        "",
        "   ",
        "{}",
        "{\"name\":\"\"}",
        "{\"other\":\"x\"}",
        "{\"name\":true}",
        "{\"name\":\"a\",\"name\":\"b\"}",
        "{\"name\":\"a\"} trailing",
        "{\"name\":{\"inner\":\"x\"}}",
        "{\"name\":\"a\"",
        "[\"name\"]",
        "{\"name\":\"a\\qb\"}",
    ];
    for text in bad {
        match parse_manifest(&chars(text)) {
            Err(PluginError::ManifestParseError) => {}
            other => panic!("expected a parse error for {:?}, got Ok or another error: {:?}", text, other.is_ok()),
        }
    }
}

#[test]
fn library_path_per_platform() {
    assert_eq!(get_library_path("example_plugin", Platform::Linux), "libexample_plugin.so");
    assert_eq!(get_library_path("x", Platform::MacOs), "libx.dylib");
    assert_eq!(get_library_path("x", Platform::Windows), "libx.dll");
}

#[test]
fn plan_load_derives_module_file() {
    let plan = plan_load(&chars("{\"name\":\"hello_world\"}"), Platform::Linux).unwrap();
    assert_eq!(plan.name, "hello_world");
    assert_eq!(plan.library_file, "libhello_world.so");
}

#[test]
fn batch_isolates_single_corrupt_manifest() {
    let texts = vec![
        chars("{\"name\":\"a\"}"),
        chars("{\"name\":"),
        chars("{\"name\":\"c\"}"),
    ];
    let (plans, failures) = plan_batch(&texts, Platform::Linux);
    assert_eq!(failures, 1);
    assert_eq!(plans.len(), 3);
    assert_eq!(plans[0].as_ref().unwrap().name, "a");
    assert!(plans[1].is_none());
    assert_eq!(plans[2].as_ref().unwrap().name, "c");
}

#[test]
fn load_round_trip() {
    let mut table = InstanceTable::new();
    let mut manager = PluginManager::new();

    let m = parse_manifest(&chars("{\"name\":\"X\"}")).unwrap();
    let instance = create_plugin_instance(&mut table, Box::new(TestPlugin));
    let module: u64 = 1;
    let prev = manager.register_plugin(m.name, instance, module);
    assert!(prev.is_none());
    execute_plugin(&table, instance);

    assert_eq!(manager.plugin_count(), 1);
    let key = String::from("X");
    assert!(manager.contains(&key));
    assert_eq!(manager.lookup(&key), Some((instance, module)));

    let removed = manager.unload_plugin(&key);
    assert_eq!(removed, Some((instance, module)));
    destroy_plugin_instance(&mut table, instance);
    assert_eq!(manager.plugin_count(), 0);
    assert!(!manager.contains(&key));
    assert!(plugin_name(&table, instance).is_none());
}

#[test]
fn unload_twice_reports_not_found() {
    let mut manager = PluginManager::new();
    let name = String::from("ghost");
    manager.register_plugin(name.clone(), 7, 8);
    assert_eq!(manager.unload_plugin(&name), Some((7, 8)));
    assert_eq!(manager.unload_plugin(&name), None);
    assert_eq!(manager.unload_plugin(&name), None);
}

#[test]
fn register_existing_name_displaces_entry() {
    let mut manager = PluginManager::new();
    assert_eq!(manager.register_plugin(String::from("A"), 1, 2), None);
    let prev = manager.register_plugin(String::from("A"), 3, 4);
    assert_eq!(prev, Some((1, 2)));
    assert_eq!(manager.plugin_count(), 1);
    assert_eq!(manager.lookup(&String::from("A")), Some((3, 4)));
}

#[test]
fn queue_is_fifo_and_reload_is_fresh() {
    let mut queue = CommandQueue::new();
    queue.send(Command::Load(String::from("dist/A")));
    queue.send(Command::Unload(String::from("A")));
    queue.send(Command::Load(String::from("dist/A")));
    assert_eq!(queue.len(), 3);

    let mut table = InstanceTable::new();
    let mut manager = PluginManager::new();
    let mut created: Vec<u64> = Vec::new();

    while let Some(command) = queue.recv() {
        match command {
            Command::Load(_dir) => {
                let h = create_plugin_instance(&mut table, Box::new(TestPlugin));
                created.push(h);
                manager.register_plugin(String::from("A"), h, 1);
                execute_plugin(&table, h);
            }
            Command::Unload(name) => {
                if let Some((instance, _module)) = manager.unload_plugin(&name) {
                    destroy_plugin_instance(&mut table, instance);
                }
            }
        }
    }

    assert_eq!(created.len(), 2);
    assert_ne!(created[0], created[1]);
    assert_eq!(manager.plugin_count(), 1);
    // only the freshly created instance is registered, never the stale one
    assert_eq!(manager.lookup(&String::from("A")), Some((created[1], 1)));
    assert!(plugin_name(&table, created[0]).is_none());
    assert!(plugin_name(&table, created[1]).is_some());
}

#[test]
fn archive_event_decides_load_or_unload() {
    match handle_archive_event(&chars("dist/foo.plugin"), true) {
        Some(Command::Load(dir)) => assert_eq!(dir, "dist/foo"),
        _ => panic!("expected a load of the working directory"),
    }
    match handle_archive_event(&chars("dist/foo.plugin"), false) {
        Some(Command::Unload(name)) => assert_eq!(name, "foo"),
        _ => panic!("expected an unload of the derived name"),
    }
    match handle_archive_event(&chars("dist/a.b.plugin"), false) {
        Some(Command::Unload(name)) => assert_eq!(name, "a.b"),
        _ => panic!("expected an unload of the derived name"),
    }
    assert!(handle_archive_event(&chars("dist/readme.txt"), true).is_none());
    assert!(handle_archive_event(&chars("dist/.plugin"), true).is_none());
    assert!(handle_archive_event(&chars(""), false).is_none());
}

#[test]
fn error_kinds_describe_themselves() {
    match parse_manifest(&chars("{}")) {
        Err(e) => assert_eq!(e.describe(), "manifest could not be parsed"),
        Ok(_) => panic!("an empty object holds no name"),
    }
    assert_eq!(PluginError::ManifestMissing.describe(), "manifest file is missing");
    assert_eq!(PluginError::ModuleNotFound.describe(), "module file was not found");
    assert_eq!(PluginError::SymbolMissing.describe(), "module lacks a required export");
    assert_eq!(PluginError::ModuleLoadError.describe(), "module could not be linked");
    assert_eq!(PluginError::ExtractionError.describe(), "archive could not be extracted");
    assert_eq!(PluginError::InstanceNotFound.describe(), "no plugin under that name");
}

#[test]
fn string_builders_copy_characters() {
    assert_eq!(chars_to_string(&chars("abc")), "abc");
    assert_eq!(chars_to_string(&chars("")), "");
    assert_eq!(chars_range_to_string(&chars("dist/foo.plugin"), 5, 8), "foo");
}
