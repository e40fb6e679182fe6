use bing_wallpaper::config::{Config, PathOverrides, Project, ProjectDefaults, ProjectError, Raw};
use bing_wallpaper::image::{file_name_from_pairs, Image};
use bing_wallpaper::opt::{Extension, ImagePart, OptionParseError, Resolution, ShowKind, ShowKindArg};
use bing_wallpaper::text::{decimal_string, parse_u16};

fn get_expected_resolutions() -> Vec<&'static str> {
    vec![
        "UHD",
        "1920x1200",
        "1920x1080",
        "1366x768",
        "1280x768",
        "1024x768",
        "800x600",
        "800x480",
        "768x1280",
        "720x1280",
        "640x480",
        "480x800",
        "400x240",
        "320x240",
        "240x320",
    ]
}

fn test_project() -> Project {
    Project {
        config_file_path: "tests/local/config/bing_wallpaper/config.json".to_string(),
        data_dir: "tests/local/share/bing_wallpaper".to_string(),
        state_file_path: "tests/local/state/bing_wallpaper/image_index.json".to_string(),
    }
}

#[test]
fn check_resolution_values_display() {
    let expected = get_expected_resolutions();

    let actual = Resolution::all()
        .iter()
        .map(|x| x.to_string())
        .collect::<Vec<_>>();

    assert_eq!(expected, actual);
}

#[test]
fn with_sample_config() {
    let project = test_project();
    let file = Raw { market: Some("en-CA".to_string()), ..Raw::default() };
    let actual = Config::new(&Raw::default(), project.duplicate(), file);

    assert_eq!(actual.raw, Raw { market: Some("en-CA".to_string()), ..Raw::default() });
    assert_eq!(actual.number(), 8);
    assert_eq!(actual.index(), None);
    assert_eq!(actual.market(), Some("en-CA".to_string()));
    assert_eq!(actual.project, project);
    assert_eq!(actual.size, Resolution::default());
    assert_eq!(actual.ext, Extension::default());
    assert_eq!(
        "https://www.bing.com/HPImageArchive.aspx?format=js&n=8&mkt=en-CA",
        actual.to_url().unwrap().as_str(),
    );
}

#[test]
fn check_opt_overrides_to_config() {
    let project = test_project();
    let file = Raw { market: Some("en-CA".to_string()), ..Raw::default() };
    let overrides = Raw { number: Some(1), index: Some(1), ..Raw::default() };
    let actual = Config::new(&overrides, project.duplicate(), file);

    assert_eq!(actual.number(), 1);
    assert_eq!(actual.index(), Some(1));
    assert_eq!(actual.market(), Some("en-CA".to_string()));
    assert_eq!(
        "https://www.bing.com/HPImageArchive.aspx?format=js&n=1&idx=1&mkt=en-CA",
        actual.to_url().unwrap().as_str(),
    );
}

#[test]
fn empty_market_override_hides_file_market() {
    let file = Raw { market: Some("en-CA".to_string()), size: Some(Resolution::Resolution(800, 600)), ..Raw::default() };
    let overrides = Raw { market: Some(String::new()), ext: Some(Extension::Webp), ..Raw::default() };
    let actual = Config::new(&overrides, test_project(), file);
    assert_eq!(actual.market(), None);
    assert_eq!(actual.size, Resolution::Resolution(800, 600));
    assert_eq!(actual.ext, Extension::Webp);
    assert_eq!(
        "https://www.bing.com/HPImageArchive.aspx?format=js&n=8",
        actual.to_url().unwrap().as_str(),
    );
    let resolved = actual.resolved_raw();
    assert_eq!(resolved.number, Some(8));
    assert_eq!(resolved.size, Some(Resolution::Resolution(800, 600)));
    assert_eq!(resolved.ext, Some(Extension::Webp));
}

#[test]
fn market_is_form_encoded_in_url() {
    let overrides = Raw { market: Some("en US&x".to_string()), ..Raw::default() };
    let actual = Config::new(&overrides, test_project(), Raw::default());
    assert_eq!(
        "https://www.bing.com/HPImageArchive.aspx?format=js&n=8&mkt=en+US%26x",
        actual.to_url().unwrap().as_str(),
    );
}

#[test]
fn resolution_parse() {
    assert_eq!(Resolution::from_str("UHD"), Ok(Resolution::Uhd));
    assert_eq!(Resolution::from_str("1920x1080"), Ok(Resolution::Resolution(1920, 1080)));
    assert_eq!(Resolution::from_str("+12x7"), Ok(Resolution::Resolution(12, 7)));
    assert_eq!(Resolution::from_str("uhd"), Err(OptionParseError::InvalidResolution));
    assert_eq!(Resolution::from_str("1920"), Err(OptionParseError::InvalidResolution));
    assert_eq!(Resolution::from_str("19a0x1080"), Err(OptionParseError::InvalidNumber));
    assert_eq!(Resolution::from_str("70000x1"), Err(OptionParseError::InvalidNumber));
    assert_eq!(Resolution::from_str("x1"), Err(OptionParseError::InvalidNumber));
    assert_eq!(Resolution::Resolution(1366, 768).to_string(), "1366x768");
}

#[test]
fn extension_tokens() {
    assert_eq!(Extension::from_str("jpg"), Ok(Extension::Jpg));
    assert_eq!(Extension::from_str("webp"), Ok(Extension::Webp));
    assert_eq!(Extension::from_str("png"), Err(OptionParseError::InvalidExtension));
    assert_eq!(Extension::Webp.to_string(), "webp");
    assert_eq!(Extension::Jpg.to_string(), "jpg");
}

#[test]
fn numbers_in_decimal() {
    assert_eq!(decimal_string(0), "0");
    assert_eq!(decimal_string(7), "7");
    assert_eq!(decimal_string(1920), "1920");
    assert_eq!(decimal_string(u64::MAX), "18446744073709551615");
    assert_eq!(parse_u16("65535"), Some(65535));
    assert_eq!(parse_u16("65536"), None);
    assert_eq!(parse_u16(""), None);
    assert_eq!(parse_u16("+"), None);
    assert_eq!(parse_u16("-1"), None);
    assert_eq!(parse_u16("007"), Some(7));
}

#[test]
fn all_columns_in_order() {
    assert_eq!(
        ImagePart::all(),
        vec![
            ImagePart::Current,
            ImagePart::Time,
            ImagePart::FullPath,
            ImagePart::Path,
            ImagePart::Title,
            ImagePart::Url,
            ImagePart::Copyright,
        ]
    );
}

#[test]
fn show_kind_from_flags() {
    let arg = ShowKindArg { current: false, random: true, latest: false };
    assert_eq!(ShowKind::from_arg(arg, true), ShowKind::Random { update: true });
    let arg = ShowKindArg { current: false, random: false, latest: true };
    assert_eq!(ShowKind::from_arg(arg, true), ShowKind::Latest);
    let arg = ShowKindArg { current: true, random: false, latest: false };
    assert_eq!(ShowKind::from_arg(arg, false), ShowKind::Current);
}

#[test]
fn project_locations() {
    let defaults = Some(ProjectDefaults {
        config_file_path: "/home/u/.config/bing_wallpaper/config.json".to_string(),
        data_dir: "/home/u/.local/share/bing_wallpaper".to_string(),
        state_file_path: None,
    });
    let none = PathOverrides { config_path: None, data_path: None, state_path: None };
    assert_eq!(Project::initialize(&none, &defaults), Err(ProjectError::NoStateDir));
    assert_eq!(Project::initialize(&none, &None), Err(ProjectError::NoProjectDirs));
    let some = PathOverrides { config_path: None, data_path: Some("/data".to_string()), state_path: Some("/s/i.json".to_string()) };
    let p = Project::initialize(&some, &defaults).unwrap();
    assert_eq!(p.config_file_path, "/home/u/.config/bing_wallpaper/config.json");
    assert_eq!(p.data_dir, "/data");
    assert_eq!(p.state_file_path, "/s/i.json");
}

#[test]
fn file_name_from_query() {
    let pairs = Some(vec![
        ("rf".to_string(), "x".to_string()),
        ("id".to_string(), "OHR.Foo_UHD.jpg".to_string()),
        ("id".to_string(), "second".to_string()),
    ]);
    assert_eq!(file_name_from_pairs(&"abc".to_string(), &pairs), Some("abc_OHR.Foo_UHD.jpg".to_string()));
    let no_id = Some(vec![("rf".to_string(), "x".to_string())]);
    assert_eq!(file_name_from_pairs(&"abc".to_string(), &no_id), None);
    assert_eq!(file_name_from_pairs(&"abc".to_string(), &None), None);
}

#[test]
fn download_url_and_file_name() {
    let overrides = Raw { size: Some(Resolution::Resolution(1920, 1080)), ext: Some(Extension::Webp), ..Raw::default() };
    let cfg = Config::new(&overrides, test_project(), Raw::default());
    let img = Image {
        full_start_date: 0,
        end_date: 0,
        hash: "f00d".to_string(),
        title: "T".to_string(),
        url: String::new(),
        url_base: "/th?id=OHR.Bar_EN-US123".to_string(),
        copyright: String::new(),
        copyright_link: String::new(),
    };
    assert_eq!(img.to_url(&cfg), "https://www.bing.com/th?id=OHR.Bar_EN-US123_1920x1080.webp");
    assert_eq!(img.file_name(&cfg), Some("f00d_OHR.Bar_EN-US123_1920x1080.webp".to_string()));
}
