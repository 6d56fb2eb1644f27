use deep_link::identity::IdentityStore;
use deep_link::registration::{
    register, register_at, unregister, ExecutableUnknown, RegistryValue, Removal,
};
use std::collections::BTreeMap;

fn identity() -> IdentityStore {
    let mut store = IdentityStore::new();
    store.set("com.example.app");
    store
}

fn value(key: &str, name: &str, data: &str) -> RegistryValue {
    RegistryValue { key: key.to_string(), name: name.to_string(), data: data.to_string() }
}

fn write_all(storage: &mut BTreeMap<(String, String), String>, values: &[RegistryValue]) {
    for v in values {
        storage.insert((v.key.clone(), v.name.clone()), v.data.clone());
    }
}

#[test]
fn a_scheme_is_registered_by_four_values() {
    let values = register_at(&["myapp"], &identity(), "C:\\Apps\\My App\\app.exe");
    assert_eq!(
        values,
        vec![
            value("Software\\Classes\\myapp", "", "URL:com.example.app"),
            value("Software\\Classes\\myapp", "URL Protocol", ""),
            value("Software\\Classes\\myapp\\DefaultIcon", "", "\"C:\\Apps\\My App\\app.exe\",0"),
            value(
                "Software\\Classes\\myapp\\shell\\open\\command",
                "",
                "\"C:\\Apps\\My App\\app.exe\" \"%1\""
            ),
        ]
    );
}

#[test]
fn the_verbatim_prefix_is_taken_off_the_path() {
    let values = register_at(&["myapp"], &identity(), "\\\\?\\C:\\Apps\\app.exe");
    assert_eq!(values[2].data, "\"C:\\Apps\\app.exe\",0");
    assert_eq!(values[3].data, "\"C:\\Apps\\app.exe\" \"%1\"");
}

#[test]
fn schemes_are_registered_in_their_order() {
    let values = register_at(&["one", "two"], &identity(), "a.exe");
    assert_eq!(values.len(), 8);
    assert_eq!(values[0].key, "Software\\Classes\\one");
    assert_eq!(values[3].key, "Software\\Classes\\one\\shell\\open\\command");
    assert_eq!(values[4].key, "Software\\Classes\\two");
    assert_eq!(values[7].key, "Software\\Classes\\two\\shell\\open\\command");
    assert_eq!(values[..4], register_at(&["one"], &identity(), "a.exe")[..]);
    assert_eq!(values[4..], register_at(&["two"], &identity(), "a.exe")[..]);
}

#[test]
fn no_scheme_needs_no_value() {
    assert_eq!(register_at(&[], &identity(), "a.exe"), Vec::new());
    assert_eq!(register(&[], &identity()), Ok(Vec::new()));
    assert_eq!(unregister(&[]), Vec::<String>::new());
}

#[test]
fn a_scheme_is_unregistered_by_its_key() {
    assert_eq!(
        unregister(&["one", "two"]),
        vec!["Software\\Classes\\one".to_string(), "Software\\Classes\\two".to_string()]
    );
}

#[test]
fn registering_twice_is_registering_once() {
    let values = register_at(&["one", "two", "one"], &identity(), "\\\\?\\C:\\a.exe");
    let mut once = BTreeMap::new();
    once.insert(("Software\\Classes\\one".to_string(), String::new()), "URL:other".to_string());
    once.insert(("Elsewhere".to_string(), "x".to_string()), "y".to_string());
    write_all(&mut once, &values);
    let mut twice = once.clone();
    write_all(&mut twice, &values);
    assert_eq!(once, twice);
    assert_eq!(once.len(), 9);
    assert_eq!(once[&("Software\\Classes\\one".to_string(), String::new())], "URL:com.example.app");
}

#[test]
fn every_value_of_a_scheme_lies_under_its_key() {
    let keys = unregister(&["myapp"]);
    for v in register_at(&["myapp"], &identity(), "a.exe") {
        assert!(v.key == keys[0] || v.key.starts_with(&format!("{}\\", keys[0])));
    }
}

#[test]
fn a_missing_key_is_no_error() {
    assert!(!Removal::Missing.is_error());
    assert!(!Removal::Removed.is_error());
}

#[test]
fn a_failed_removal_is_an_error() {
    assert!(Removal::Failed.is_error());
}

#[test]
fn register_takes_the_path_of_the_running_executable() {
    let schemes = ["one", "two"];
    match tauri_utils::platform::current_exe() {
        Ok(path) => {
            let exe = path.display().to_string();
            assert!(!exe.is_empty());
            let values = register(&schemes, &identity()).unwrap();
            assert_eq!(values, register_at(&schemes, &identity(), &exe));
            assert_eq!(values[3].data, format!("\"{}\" \"%1\"", exe.replace("\\\\?\\", "")));
        }
        Err(error) => {
            assert_eq!(
                register(&schemes, &identity()),
                Err(ExecutableUnknown { reason: error.to_string() })
            );
        }
    }
}

#[test]
fn no_scheme_needs_no_identity() {
    let unset = IdentityStore::new();
    assert_eq!(register_at(&[], &unset, "a.exe"), Vec::new());
    assert_eq!(register(&[], &unset), Ok(Vec::new()));
}
