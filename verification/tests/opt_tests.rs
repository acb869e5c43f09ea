use six_degrees::entry::Entry;
use six_degrees::opt::Opt;

fn options(depth: u32) -> Opt {
    Opt {
        cache: "/tmp/cache".to_string(),
        cores: Some(4),
        depth,
        domain_name: "https://en.wikipedia.org/".to_string(),
        memory: None,
        port: 6360,
        workers: None,
    }
}

#[test]
fn depth_is_clamped() {
    assert_eq!(options(0).get_depth(), 1);
    assert_eq!(options(1).get_depth(), 1);
    assert_eq!(options(2).get_depth(), 2);
    assert_eq!(options(6).get_depth(), 6);
    assert_eq!(options(7).get_depth(), 6);
}

#[test]
fn option_getters() {
    let opt = options(2);
    assert_eq!(opt.get_port(), 6360);
    assert_eq!(opt.get_domain_name(), "https://en.wikipedia.org/");
    assert_eq!(*opt.get_memory(), None);
    assert_eq!(*opt.get_cores(), Some(4));
    assert_eq!(opt.get_worker_count(), None);
}

#[test]
fn entry_bytes() {
    Entry::from(&[1, 2, 3]);
}

fn cache_options(cache: &str) -> Opt {
    let mut opt = options(2);
    opt.cache = cache.to_string();
    opt
}

/// The cache directory as std's paths resolve it.
fn std_cache(cache: &str, home: &str) -> Option<String> {
    let path = std::path::PathBuf::from(cache);
    if path.starts_with("$HOME") {
        let resolved = std::path::Path::new(home).join(path.strip_prefix("$HOME").ok()?);
        Some(resolved.to_string_lossy().into_owned())
    } else {
        Some(cache.to_string())
    }
}

#[test]
fn cache_in_home() {
    let opt = cache_options("$HOME/six_degrees_cache");
    assert_eq!(opt.get_cache(Some("/home/wiki")), "/home/wiki/six_degrees_cache");
    assert_eq!(opt.get_cache(Some("/home/wiki/")), "/home/wiki/six_degrees_cache");
    assert_eq!(opt.try_get_cache(None), None);
    assert_eq!(cache_options("$HOME/a/b").get_cache(Some("/h")), "/h/a/b");
    assert_eq!(cache_options("$HOME/a/../b/").get_cache(Some("/h")), "/h/a/../b");
}

#[test]
fn cache_elsewhere() {
    let opt = cache_options("/var/cache/six_degrees");
    assert_eq!(opt.get_cache(None), "/var/cache/six_degrees");
    assert_eq!(cache_options("$HOMES/x").get_cache(None), "$HOMES/x");
}

#[test]
fn cache_resolution_matches_paths() {
    for cache in [
        "$HOME/six_degrees_cache",
        "$HOME",
        "$HOME/",
        "$HOME/a/b",
        "$HOME/a/b/",
        "$HOME/a/./",
        "$HOME//a//",
        "$HOME/..",
        "$HOME/a/..",
        "$HOME/./a/./b/.",
        "$HOME/.",
        "$HOME///",
        "$HOME/a/.b/c",
        "$HOME/../x",
        "$HOMEX/a",
        "/tmp/$HOME/a",
        "./$HOME/a",
        "relative/dir",
    ] {
        for home in ["/home/wiki", "/", "", "home/"] {
            assert_eq!(
                cache_options(cache).try_get_cache(Some(home)),
                std_cache(cache, home),
                "cache {:?} home {:?}",
                cache,
                home
            );
        }
    }
}
