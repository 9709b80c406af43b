use std::path::{Component, Path, PathBuf};
use vexell::order::{compare_keys, key_of, listing_order};
use vexell::paths::PathModel;

fn model(p: &Path) -> PathModel {
    let mut anchor = Vec::new();
    let mut names = Vec::new();
    for c in p.components() {
        match c {
            Component::Prefix(x) => anchor.push(x.as_os_str().to_string_lossy().into_owned()),
            Component::RootDir => anchor.push("/".to_string()),
            Component::CurDir => names.push(".".to_string()),
            Component::ParentDir => names.push("..".to_string()),
            Component::Normal(s) => names.push(s.to_string_lossy().into_owned()),
        }
    }
    PathModel { anchor, names }
}

#[test]
fn listing_matches_path_order() {
    let paths: Vec<PathBuf> = [
        "/p/b/x.png", "/p/a/z.png", "/p/a/y.png", "/p/a", "/p/a-b/c.png", "/p/a/b/c.png",
        "./q.png", "../r.png", "s.png", "-t.png", "/", "/p/é.png", "/p/e.png", "/p/a/y.png",
        "/p/A.png",
    ]
    .iter()
    .map(PathBuf::from)
    .collect();
    let models: Vec<PathModel> = paths.iter().map(|p| model(p)).collect();
    let order = listing_order(&models);
    let mine: Vec<PathBuf> = order.iter().map(|&i| paths[i].clone()).collect();
    let mut expected = paths.clone();
    expected.sort();
    assert_eq!(mine, expected);
    // equal paths keep their given order
    let y: Vec<usize> = order.iter().copied().filter(|&i| paths[i] == Path::new("/p/a/y.png")).collect();
    assert_eq!(y, vec![2, 13]);
}

#[test]
fn keys_compare_like_paths() {
    let a = key_of(&model(Path::new("/a/b")));
    let b = key_of(&model(Path::new("/a/b/c")));
    let c = key_of(&model(Path::new("/a/c")));
    assert_eq!(compare_keys(&a, &b), -1);
    assert_eq!(compare_keys(&b, &c), -1);
    assert_eq!(compare_keys(&c, &a), 1);
    assert_eq!(compare_keys(&a, &a), 0);
}

#[test]
fn empty_listing() {
    assert!(listing_order(&vec![]).is_empty());
}
