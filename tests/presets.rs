use led_matrix::presets::{PresetError, PresetManager};

fn bitmap(fill: u8) -> Vec<u8> {
    vec![fill; 306]
}

#[test]
fn save_then_load_round_trips() {
    let mut store = PresetManager::new();
    let img: Vec<u8> = (0..306).map(|i| (i * 7 % 256) as u8).collect();
    assert_eq!(store.save_preset("x".to_string(), img.clone()), Ok(()));
    assert_eq!(store.get_preset("x"), Some(img));
    assert_eq!(store.get_preset("y"), None);
}

#[test]
fn saving_again_overwrites() {
    let mut store = PresetManager::new();
    store.save_preset("x".to_string(), bitmap(1)).unwrap();
    store.save_preset("x".to_string(), bitmap(2)).unwrap();
    assert_eq!(store.get_preset("x"), Some(bitmap(2)));
    assert_eq!(store.list_presets(), vec!["x".to_string()]);
}

#[test]
fn wrong_size_is_refused_and_store_unchanged() {
    let mut store = PresetManager::new();
    store.save_preset("x".to_string(), bitmap(3)).unwrap();
    let r = store.save_preset("x".to_string(), vec![9u8; 305]);
    assert_eq!(r, Err(PresetError::SizeMismatch { expected: 306, actual: 305 }));
    assert_eq!(store.get_preset("x"), Some(bitmap(3)));
    let r = store.save_preset("y".to_string(), Vec::new());
    assert_eq!(r, Err(PresetError::SizeMismatch { expected: 306, actual: 0 }));
    assert_eq!(store.get_preset("y"), None);
    assert_eq!(store.list_presets().len(), 1);
}

#[test]
fn delete_removes_and_missing_is_fine() {
    let mut store = PresetManager::new();
    store.save_preset("x".to_string(), bitmap(4)).unwrap();
    store.save_preset("z".to_string(), bitmap(5)).unwrap();
    store.delete_preset("x");
    assert_eq!(store.get_preset("x"), None);
    assert_eq!(store.get_preset("z"), Some(bitmap(5)));
    store.delete_preset("missing");
    assert_eq!(store.get_preset("z"), Some(bitmap(5)));
}

#[test]
fn list_is_the_set_of_names() {
    let mut store = PresetManager::new();
    assert!(store.list_presets().is_empty());
    for name in ["b", "a", "c", "a"] {
        store.save_preset(name.to_string(), bitmap(6)).unwrap();
    }
    let mut names = store.list_presets();
    names.sort();
    assert_eq!(names, vec!["a".to_string(), "b".to_string(), "c".to_string()]);
}
