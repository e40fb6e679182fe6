use bing_wallpaper::catalog::ImageData;
use bing_wallpaper::commands::{
    image_count_suffix, list_images, relative_text, reset_plan, show, ImageFilterKind, ListError,
    ShowError, SpanParts,
};
use bing_wallpaper::config::{Config, Project, Raw};
use bing_wallpaper::image::Image;
use bing_wallpaper::opt::{ImagePart, ResetItem, ShowKind};
use bing_wallpaper::state::{AppState, SelectError};

fn record(hash: &str, title: &str, id: &str, start: i64) -> Image {
    Image {
        full_start_date: start,
        end_date: start,
        hash: hash.to_string(),
        title: title.to_string(),
        url: String::new(),
        url_base: format!("/th?id={id}"),
        copyright: format!("{title} copyright"),
        copyright_link: String::new(),
    }
}

fn config() -> Config {
    let project = Project {
        config_file_path: "/p/config.json".to_string(),
        data_dir: "/p/share".to_string(),
        state_file_path: "/p/state/image_index.json".to_string(),
    };
    Config::new(&Raw::default(), project, Raw::default())
}

fn state_with_images() -> AppState {
    AppState {
        image_data: ImageData::from_images(vec![
            record("h2", "Lighthouse", "OHR.Light", 200),
            record("h1", "Mountain lake", "OHR.Lake", 100),
        ]),
        current_image: Some("h2_OHR.Light_UHD.jpg".to_string()),
    }
}

fn times() -> Vec<String> {
    vec!["t100".to_string(), "t200".to_string()]
}

#[test]
fn list_existing_images() {
    let state = state_with_images();
    let rows = list_images(
        &state,
        &config(),
        None,
        &vec![ImagePart::Title, ImagePart::Path],
        false,
        &vec![],
        &times(),
    )
    .unwrap();
    assert_eq!(
        rows,
        vec![
            "Mountain lake\th1_OHR.Lake_UHD.jpg".to_string(),
            "Lighthouse\th2_OHR.Light_UHD.jpg".to_string(),
        ]
    );
}

#[test]
fn list_all_columns() {
    let state = state_with_images();
    let rows = list_images(&state, &config(), None, &vec![], false, &vec![], &times()).unwrap();
    assert_eq!(
        rows[1],
        "true\tt200\t/p/share/h2_OHR.Light_UHD.jpg\th2_OHR.Light_UHD.jpg\tLighthouse\thttps://www.bing.com/th?id=OHR.Light_UHD.jpg\tLighthouse copyright"
    );
    assert!(rows[0].starts_with("false\tt100\t/p/share/h1_OHR.Lake_UHD.jpg\t"));
}

#[test]
fn list_missing_and_untracked() {
    let state = state_with_images();
    let local = vec!["h1_OHR.Lake_UHD.jpg".to_string(), "stray.jpg".to_string()];
    let missing = list_images(
        &state,
        &config(),
        Some(ImageFilterKind::Missing),
        &vec![ImagePart::Path],
        false,
        &local,
        &times(),
    )
    .unwrap();
    assert_eq!(missing, vec!["h2_OHR.Light_UHD.jpg".to_string()]);
    let untracked = list_images(
        &state,
        &config(),
        Some(ImageFilterKind::Untracked),
        &vec![ImagePart::Path, ImagePart::Title, ImagePart::FullPath],
        false,
        &local,
        &times(),
    )
    .unwrap();
    assert_eq!(untracked, vec!["stray.jpg\t/p/share/stray.jpg".to_string()]);
}

#[test]
fn list_empty_catalog_fails() {
    let state = AppState::default();
    let r = list_images(&state, &config(), None, &vec![], true, &vec![], &vec![]);
    assert_eq!(r, Err(ListError::NoImages));
}

#[test]
fn show_current_latest_random() {
    let cfg = config();
    let mut state = state_with_images();
    assert_eq!(show(&mut state, &cfg, ShowKind::Current), Ok("h2_OHR.Light_UHD.jpg".to_string()));
    state.current_image = Some("h1_OHR.Lake_UHD.jpg".to_string());
    assert_eq!(show(&mut state, &cfg, ShowKind::Latest), Ok("h2_OHR.Light_UHD.jpg".to_string()));
    let r = show(&mut state, &cfg, ShowKind::Random { update: true });
    assert_eq!(r, Ok("h2_OHR.Light_UHD.jpg".to_string()));
    assert_eq!(state.current_image, Some("h2_OHR.Light_UHD.jpg".to_string()));
    let r = show(&mut state, &cfg, ShowKind::Random { update: false });
    assert_eq!(r, Ok("h1_OHR.Lake_UHD.jpg".to_string()));
    assert_eq!(state.current_image, Some("h2_OHR.Light_UHD.jpg".to_string()));
}

#[test]
fn show_without_images() {
    let cfg = config();
    let mut state = AppState::default();
    assert_eq!(show(&mut state, &cfg, ShowKind::Current), Err(ShowError::NoCurrentImage));
    assert_eq!(show(&mut state, &cfg, ShowKind::Latest), Err(ShowError::NoCurrentImage));
    assert_eq!(
        show(&mut state, &cfg, ShowKind::Random { update: true }),
        Err(ShowError::Select(SelectError::NoImages))
    );
}

#[test]
fn relative_times() {
    let span = SpanParts { years: 1, months: 2, days: 0, hours: 1, minutes: 0, seconds: 30 };
    assert_eq!(relative_text(&span, false, false), "1 year, 2 months, 1 hour, 30 seconds");
    assert_eq!(relative_text(&span, true, false), "1y, 2mo, 1h, 30s");
    let zero = SpanParts { years: 0, months: 0, days: 0, hours: 0, minutes: 0, seconds: 0 };
    assert_eq!(relative_text(&zero, false, false), "now");
    assert_eq!(relative_text(&zero, true, true), "today");
    let days = SpanParts { years: 0, months: 0, days: 1, hours: 0, minutes: 5, seconds: -3 };
    assert_eq!(relative_text(&days, false, true), "1 day, 5 minutes");
}

#[test]
fn reset_targets() {
    let p = reset_plan(false, &vec![ResetItem::State]);
    assert!(!p.images && p.state);
    let p = reset_plan(true, &vec![]);
    assert!(p.images && p.state);
    let p = reset_plan(false, &vec![]);
    assert!(!p.images && !p.state);
    assert_eq!(image_count_suffix(None), "");
    assert_eq!(image_count_suffix(Some(1)), " (1 image)");
    assert_eq!(image_count_suffix(Some(0)), " (0 images)");
    assert_eq!(image_count_suffix(Some(12)), " (12 images)");
}
