use engine::assets::{AssetLoader, AssetManager};

use std::cell::Cell;
use std::rc::Rc;
use std::sync::Arc;

/// Loads text assets; the test asset `./test_assets/test.txt` holds
/// `Hello, World!\n`.
#[derive(Default)]
struct TextLoader;

impl AssetLoader<String> for TextLoader {
    fn loads(&self, path: String, asset: String) -> bool {
        path == "./test_assets/test.txt" && asset == "Hello, World!\n"
    }

    fn load_asset(&self, path: &String) -> String {
        if path == "./test_assets/test.txt" {
            "Hello, World!\n".to_string()
        } else {
            panic!("Could not open {}", path)
        }
    }
}

#[test]
fn load_asset() {
    let mut am = AssetManager::new();

    am.register(Box::new(TextLoader::default()));

    let s: Arc<String> = am.get_asset("./test_assets/test.txt".to_string());

    assert_eq!(*s, "Hello, World!\n".to_string())
}

#[test]
fn load_many_same() {
    let mut am = AssetManager::new();

    am.register(Box::new(TextLoader::default()));

    let path = "./test_assets/test.txt".to_string();

    println!("s0");
    let s0: Arc<String> = am.get_asset(path.clone());
    println!("s1");
    let s1: Arc<String> = am.get_asset(path);

    assert_eq!(*s0, "Hello, World!\n".to_string());
    assert_eq!(*s1, "Hello, World!\n".to_string())
}

#[test]
fn load_unload() {
    let mut am = AssetManager::new();

    am.register(Box::new(TextLoader::default()));

    let path = "./test_assets/test.txt".to_string();

    println!("s0");
    let s0: Arc<String> = am.get_asset(path.clone());
    println!("s1");
    let s1: Arc<String> = am.get_asset(path.clone());

    assert_eq!(*s0, "Hello, World!\n".to_string());
    assert_eq!(*s1, "Hello, World!\n".to_string());

    drop(s0);
    drop(s1);

    println!("s2");
    let s2: Arc<String> = am.get_asset(path.clone());
    println!("s3");
    let s3: Arc<String> = am.get_asset(path);

    assert_eq!(*s2, "Hello, World!\n".to_string());
    assert_eq!(*s3, "Hello, World!\n".to_string());
}

/// Counts its loads and returns the path with the load number.
struct CountingLoader {
    loads: Rc<Cell<u32>>,
}

impl AssetLoader<String> for CountingLoader {
    fn loads(&self, path: String, asset: String) -> bool {
        asset.starts_with(&format!("{}#", path))
    }

    fn load_asset(&self, path: &String) -> String {
        self.loads.set(self.loads.get() + 1);
        format!("{}#{}", path, self.loads.get())
    }
}

#[test]
fn an_asset_in_use_is_shared_not_reloaded() {
    let loads = Rc::new(Cell::new(0));
    let mut am = AssetManager::new();
    am.register(Box::new(CountingLoader { loads: loads.clone() }));
    let a: Arc<String> = am.get_asset("a".to_string());
    let b: Arc<String> = am.get_asset("a".to_string());
    assert_eq!(loads.get(), 1);
    assert!(Arc::ptr_eq(&a, &b));
    assert_eq!(*b, "a#1".to_string());
}

#[test]
fn a_released_asset_is_loaded_again() {
    let loads = Rc::new(Cell::new(0));
    let mut am = AssetManager::new();
    am.register(Box::new(CountingLoader { loads: loads.clone() }));
    let a: Arc<String> = am.get_asset("a".to_string());
    drop(a);
    let again: Arc<String> = am.get_asset("a".to_string());
    assert_eq!(loads.get(), 2);
    assert_eq!(*again, "a#2".to_string());
}

#[test]
fn the_first_registered_loader_stays() {
    let first = Rc::new(Cell::new(0));
    let second = Rc::new(Cell::new(0));
    let mut am = AssetManager::new();
    am.register(Box::new(CountingLoader { loads: first.clone() }));
    am.register(Box::new(CountingLoader { loads: second.clone() }));
    let _a: Arc<String> = am.get_asset("x".to_string());
    assert_eq!(first.get(), 1);
    assert_eq!(second.get(), 0);
}

#[test]
fn lookup_or_load_reuses_only_when_told_the_asset_is_in_use() {
    let loads = Rc::new(Cell::new(0));
    let mut am = AssetManager::new();
    am.register(Box::new(CountingLoader { loads: loads.clone() }));
    let a: Arc<String> = am.lookup_or_load("p".to_string(), true);
    assert_eq!(*a, "p#1".to_string());
    let b: Arc<String> = am.lookup_or_load("p".to_string(), true);
    assert_eq!(*b, "p#1".to_string());
    let c: Arc<String> = am.lookup_or_load("p".to_string(), false);
    assert_eq!(*c, "p#2".to_string());
    assert_eq!(loads.get(), 2);
}
