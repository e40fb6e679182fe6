use bing_wallpaper::catalog::ImageData;
use bing_wallpaper::config::{Config, Project, Raw};
use bing_wallpaper::image::Image;
use bing_wallpaper::state::{AppState, SelectError};
use bing_wallpaper::sync::{sync_images, SyncError};

fn record(hash: &str, title: &str, url_base: &str, start: i64) -> Image {
    Image {
        full_start_date: start,
        end_date: start + 86_400,
        hash: hash.to_string(),
        title: title.to_string(),
        url: format!("{url_base}_1920x1080.jpg&rf=LaDigue_1920x1080.jpg"),
        url_base: url_base.to_string(),
        copyright: format!("{title} (c) someone"),
        copyright_link: "https://www.bing.com/search?q=x".to_string(),
    }
}

fn config() -> Config {
    let project = Project {
        config_file_path: "/tmp/cfg/config.json".to_string(),
        data_dir: "/tmp/share/bing_wallpaper".to_string(),
        state_file_path: "/tmp/state/image_index.json".to_string(),
    };
    Config::new(&Raw::default(), project, Raw::default())
}

fn remote() -> Vec<Image> {
    vec![
        record("aaa", "First", "/th?id=OHR.First_EN-CA1", 1_700_000_000),
        record("bbb", "Second", "/th?id=OHR.Second_EN-CA2", 1_700_086_400),
        record("ccc", "Third", "/th?id=OHR.Third_EN-CA3", 1_699_913_600),
    ]
}

#[test]
fn scenario_single_new_record() {
    let cfg = config();
    let mut local = ImageData::new();
    let listing = vec![record("abc", "Foo over the hills", "/th?id=OHR.Foo", 1_700_000_000)];
    let plan = sync_images(&mut local, &listing, &cfg, &vec![]).unwrap();
    assert_eq!(local.len(), 1);
    assert_eq!(plan.new_titles, vec!["Foo over the hills".to_string()]);
    assert_eq!(plan.downloads.len(), 1);
    assert_eq!(plan.downloads[0].file_name, "abc_OHR.Foo_UHD.jpg");
    assert_eq!(plan.downloads[0].url, "https://www.bing.com/th?id=OHR.Foo_UHD.jpg");
}

#[test]
fn sync_twice_is_idempotent() {
    let cfg = config();
    let mut local = ImageData::new();
    let first = sync_images(&mut local, &remote(), &cfg, &vec![]).unwrap();
    assert_eq!(first.new_titles.len(), 3);
    let after_first: Vec<Image> = local.images().clone();
    let second = sync_images(&mut local, &remote(), &cfg, &vec![]).unwrap();
    assert!(second.new_titles.is_empty());
    assert_eq!(local.images(), &after_first);
    assert_eq!(local.len(), 3);
}

#[test]
fn catalog_is_ordered_by_start_time() {
    let cfg = config();
    let mut local = ImageData::new();
    sync_images(&mut local, &remote(), &cfg, &vec![]).unwrap();
    let titles: Vec<&str> = local.images().iter().map(|i| i.title.as_str()).collect();
    assert_eq!(titles, vec!["Third", "First", "Second"]);
}

#[test]
fn identity_ignores_times() {
    let mut local = ImageData::new();
    let a = record("aaa", "First", "/th?id=OHR.First_EN-CA1", 1_700_000_000);
    let mut b = a.clone();
    b.full_start_date += 3600;
    b.end_date += 3600;
    assert!(local.insert(a.clone()));
    assert!(!local.insert(b));
    assert_eq!(local.len(), 1);
    assert_eq!(local.images()[0], a);
}

#[test]
fn different_title_is_another_image() {
    let mut local = ImageData::new();
    let a = record("aaa", "First", "/th?id=OHR.First_EN-CA1", 1_700_000_000);
    let mut b = a.clone();
    b.title = "Other".to_string();
    assert!(local.insert(a));
    assert!(local.insert(b));
    assert_eq!(local.len(), 2);
}

#[test]
fn present_files_are_not_fetched() {
    let cfg = config();
    let mut local = ImageData::new();
    let present = vec![
        "aaa_OHR.First_EN-CA1_UHD.jpg".to_string(),
        "bbb_OHR.Second_EN-CA2_UHD.jpg".to_string(),
        "ccc_OHR.Third_EN-CA3_UHD.jpg".to_string(),
    ];
    let plan = sync_images(&mut local, &remote(), &cfg, &present).unwrap();
    assert!(plan.downloads.is_empty());
    assert_eq!(plan.new_titles, vec!["First", "Second", "Third"]);
    assert_eq!(local.len(), 3);
}

#[test]
fn only_absent_files_are_fetched_once() {
    let cfg = config();
    let mut local = ImageData::new();
    let mut listing = remote();
    listing.push(listing[0].clone());
    let present = vec!["bbb_OHR.Second_EN-CA2_UHD.jpg".to_string()];
    let plan = sync_images(&mut local, &listing, &cfg, &present).unwrap();
    let names: Vec<&str> = plan.downloads.iter().map(|d| d.file_name.as_str()).collect();
    assert_eq!(names, vec!["aaa_OHR.First_EN-CA1_UHD.jpg", "ccc_OHR.Third_EN-CA3_UHD.jpg"]);
    assert_eq!(plan.new_titles, vec!["First", "Second", "Third"]);
}

#[test]
fn local_only_records_are_kept() {
    let cfg = config();
    let mut local = ImageData::new();
    local.insert(record("zzz", "Old", "/th?id=OHR.Old_EN-CA9", 1_600_000_000));
    sync_images(&mut local, &remote(), &cfg, &vec![]).unwrap();
    assert_eq!(local.len(), 4);
    assert_eq!(local.images()[0].title, "Old");
}

#[test]
fn record_without_id_is_refused_without_change() {
    let cfg = config();
    let mut local = ImageData::new();
    let listing = vec![
        record("aaa", "First", "/th?id=OHR.First_EN-CA1", 1_700_000_000),
        record("bad", "No id", "/th?name=OHR.Nothing", 1_700_000_001),
    ];
    let r = sync_images(&mut local, &listing, &cfg, &vec![]);
    assert_eq!(r.err(), Some(SyncError::MissingImageId));
    assert!(local.is_empty());
}

#[test]
fn selection_never_repeats_current() {
    let cfg = config();
    let mut state = AppState::default();
    sync_images(&mut state.image_data, &remote(), &cfg, &vec![]).unwrap();
    let current = "bbb_OHR.Second_EN-CA2_UHD.jpg".to_string();
    state.current_image = Some(current.clone());
    for _ in 0..2000 {
        let chosen = state.get_random_image(&cfg).unwrap();
        assert_ne!(chosen, current);
        assert!(chosen == "aaa_OHR.First_EN-CA1_UHD.jpg" || chosen == "ccc_OHR.Third_EN-CA3_UHD.jpg");
    }
}

#[test]
fn selection_reaches_every_candidate() {
    let cfg = config();
    let mut state = AppState::default();
    sync_images(&mut state.image_data, &remote(), &cfg, &vec![]).unwrap();
    let mut seen = std::collections::BTreeSet::new();
    for _ in 0..2000 {
        seen.insert(state.get_random_image(&cfg).unwrap());
    }
    assert_eq!(seen.len(), 3);
}

#[test]
fn selection_on_singleton_returns_it() {
    let cfg = config();
    let mut state = AppState::default();
    let listing = vec![record("abc", "Foo", "/th?id=OHR.Foo", 1_700_000_000)];
    sync_images(&mut state.image_data, &listing, &cfg, &vec![]).unwrap();
    state.current_image = Some("abc_OHR.Foo_UHD.jpg".to_string());
    for _ in 0..50 {
        assert_eq!(state.get_random_image(&cfg), Ok("abc_OHR.Foo_UHD.jpg".to_string()));
    }
}

#[test]
fn selection_on_empty_catalog_fails() {
    let cfg = config();
    let state = AppState::default();
    assert_eq!(state.get_random_image(&cfg), Err(SelectError::NoImages));
}

#[test]
fn catalog_from_records_drops_duplicates() {
    let mut listing = remote();
    let mut dup = listing[1].clone();
    dup.full_start_date = 1;
    listing.push(dup);
    let data = ImageData::from_images(listing);
    assert_eq!(data.len(), 3);
    assert_eq!(data.images()[2].title, "Second");
    assert_eq!(data.images()[2].full_start_date, 1_700_086_400);
}
