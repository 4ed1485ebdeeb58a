use run_in_roblox::{RunInRbxPlugin, BOOTSTRAP_CLASS, BOOTSTRAP_NAME, MAIN_CLASS, MAIN_NAME};

fn plugin<'a>(script: &'a str) -> RunInRbxPlugin<'a> {
    RunInRbxPlugin { port: 50312, server_id: "run-in-roblox-abc123", lua_script: script }
}

#[test]
fn build_plugin_wraps_script() {
    let tree = plugin("print(\"hello\")").build_plugin();
    assert_eq!(tree.main.source, "return function()\nprint(\"hello\")\nend");
    assert_eq!(tree.main.class_name, MAIN_CLASS);
    assert_eq!(tree.main.name, MAIN_NAME);
    assert_eq!(tree.bootstrap.class_name, BOOTSTRAP_CLASS);
    assert_eq!(tree.bootstrap.name, BOOTSTRAP_NAME);
}

#[test]
fn build_plugin_fills_placeholders() {
    let tree = plugin("").build_plugin();
    let src = &tree.bootstrap.source;
    assert!(src.contains("local PORT = 50312"));
    assert!(src.contains("local SERVER_ID = \"run-in-roblox-abc123\""));
    assert!(!src.contains("{{PORT}}"));
    assert!(!src.contains("{{SERVER_ID}}"));
}

#[test]
fn write_round_trips_main_source() {
    let script = "local x = 1\nprint(x)";
    let mut out: Vec<u8> = Vec::new();
    assert_eq!(plugin(script).write(&mut out), Ok(()));
    assert!(!out.is_empty());
    let dom = rbx_xml::from_reader_default(out.as_slice()).unwrap();
    let root = dom.get_by_ref(dom.root_ref()).unwrap();
    assert_eq!(root.children().len(), 1);
    let bootstrap = dom.get_by_ref(root.children()[0]).unwrap();
    assert_eq!(bootstrap.class, "Script");
    assert_eq!(bootstrap.name, "run-in-roblox-plugin");
    assert_eq!(bootstrap.children().len(), 1);
    let main = dom.get_by_ref(bootstrap.children()[0]).unwrap();
    assert_eq!(main.class, "ModuleScript");
    assert_eq!(main.name, "Main");
    let source = match main.properties.get("Source") {
        Some(rbx_types::Variant::String(s)) => s.clone(),
        other => panic!("unexpected source {:?}", other),
    };
    assert_eq!(source, format!("return function()\n{}\nend", script));
}

#[test]
fn write_appends_to_existing_bytes() {
    let mut alone: Vec<u8> = Vec::new();
    plugin("print(1)").write(&mut alone).unwrap();
    let mut out: Vec<u8> = vec![1, 2, 3];
    plugin("print(1)").write(&mut out).unwrap();
    assert_eq!(&out[..3], &[1, 2, 3]);
    assert_eq!(&out[3..], alone.as_slice());
}

#[test]
fn write_is_deterministic() {
    let mut a: Vec<u8> = Vec::new();
    let mut b: Vec<u8> = Vec::new();
    plugin("print(2)").write(&mut a).unwrap();
    plugin("print(2)").write(&mut b).unwrap();
    assert_eq!(a, b);
}

#[test]
fn write_example_plugin_succeeds_and_decodes() {
    let plugin = RunInRbxPlugin {
        port: 50312,
        server_id: "run-in-roblox-1f",
        lua_script: "print('hello')",
    };
    let mut buf: Vec<u8> = Vec::new();
    assert_eq!(plugin.write(&mut buf), Ok(()));
    assert!(!buf.is_empty());
    let dom = rbx_xml::from_reader_default(buf.as_slice()).unwrap();
    let root = dom.get_by_ref(dom.root_ref()).unwrap();
    let bootstrap = dom.get_by_ref(root.children()[0]).unwrap();
    let main = dom.get_by_ref(bootstrap.children()[0]).unwrap();
    assert_eq!(main.class, "ModuleScript");
    assert_eq!(main.name, "Main");
    match main.properties.get("Source") {
        Some(rbx_types::Variant::String(s)) => {
            assert_eq!(s, "return function()\nprint('hello')\nend")
        }
        other => panic!("unexpected source {:?}", other),
    }
}
