use bell::icon::{
    ini_field_readable, ini_section_readable, search_for_icon_in_icon_theme, DirectoryProbe,
    get_field_from_ini_file, get_section_from_ini_file, get_size_distance_for_icon, icon_file_name,
    icon_from_uri, search_for_icon_in_directory, theme_directories, IconError, IconFileInformation,
    IconFileType, IconSize,
};
use bell::table::Table;

const INDEX: &str = "[Icon Theme]\nName=Test\nDirectories=16x16/apps,scalable/apps, \n\n[16x16/apps]\nSize=16\nType=Fixed\n";

fn section(entries: &[(&str, &str)]) -> Table<String> {
    let mut t = Table::new();
    for (k, v) in entries {
        t.insert((*k).to_owned(), (*v).to_owned());
    }
    t
}

#[test]
fn extensions_name_file_types() {
    assert_eq!(IconFileType::try_from_extension("png"), Some(IconFileType::PNG));
    assert_eq!(IconFileType::try_from_extension("svg"), Some(IconFileType::SVG));
    assert_eq!(IconFileType::try_from_extension("xpm"), Some(IconFileType::XPM));
    assert_eq!(IconFileType::try_from_extension("jpg"), None);
    assert_eq!(IconFileType::PNG.extension(), ".png");
    assert_eq!(icon_file_name("firefox", IconFileType::SVG), "firefox.svg");
}

#[test]
fn file_type_iteration_yields_after_the_start() {
    let mut it = IconFileType::iter();
    assert_eq!(it.next(), Some(IconFileType::PNG));
    assert_eq!(it.next(), Some(IconFileType::XPM));
    assert_eq!(it.next(), None);
    assert_eq!(it.next(), None);
}

#[test]
fn icon_sizes_scale() {
    assert_eq!(IconSize { size: 16, scale: 2 }.scaled_size(), 32);
    assert_eq!(IconSize::default(), IconSize { size: 0, scale: 0 });
    let info = IconFileInformation::new("/a.png".to_owned(), IconFileType::PNG, None);
    assert_eq!(info.path, "/a.png");
}

#[test]
fn index_fields_and_directories() {
    assert_eq!(
        get_field_from_ini_file(INDEX, "Directories"),
        Ok("16x16/apps,scalable/apps, ".to_owned())
    );
    assert_eq!(get_field_from_ini_file(INDEX, "Inherits"), Err(IconError::InvalidData));
    assert_eq!(
        theme_directories(INDEX),
        Ok(vec!["16x16/apps".to_owned(), "scalable/apps".to_owned()])
    );
}

#[test]
fn section_reading_starts_at_the_first_mention() {
    let t = get_section_from_ini_file(INDEX, "16x16/apps").unwrap();
    assert_eq!(t.get("Type"), Some(&"Fixed".to_owned()));
    assert_eq!(t.get("Size"), Some(&"16".to_owned()));
    assert!(get_section_from_ini_file(INDEX, "missing/apps").is_err());
}

#[test]
fn section_reading_skips_past_the_line_break() {
    let t = get_section_from_ini_file("[apps]\nSize=16\nType=Fixed\n", "apps").unwrap();
    assert!(t.get("Size").is_none());
    assert_eq!(t.get("ize"), Some(&"16".to_owned()));
    assert_eq!(t.get("Type"), Some(&"Fixed".to_owned()));
}

#[test]
fn size_distances_by_directory_type() {
    let fixed = section(&[("Size", "16"), ("Type", "Fixed")]);
    assert_eq!(
        get_size_distance_for_icon(&fixed, IconSize { size: 24, scale: 1 }),
        Some((8, IconSize { size: 16, scale: 1 }))
    );
    let scalable = section(&[("Size", "48"), ("Type", "Scalable"), ("MinSize", "8"), ("MaxSize", "512")]);
    assert_eq!(
        get_size_distance_for_icon(&scalable, IconSize { size: 24, scale: 1 }),
        Some((0, IconSize { size: 48, scale: 1 }))
    );
    assert_eq!(
        get_size_distance_for_icon(&scalable, IconSize { size: 4, scale: 1 }),
        Some((4, IconSize { size: 8, scale: 1 }))
    );
    let threshold = section(&[("Size", "22")]);
    assert_eq!(
        get_size_distance_for_icon(&threshold, IconSize { size: 16, scale: 1 }),
        Some((4, IconSize { size: 20, scale: 1 }))
    );
    assert_eq!(get_size_distance_for_icon(&section(&[("Type", "Fixed")]), IconSize { size: 16, scale: 1 }), None);
}

#[test]
fn directory_search_takes_the_first_found_type() {
    let fixed = section(&[("Size", "16"), ("Type", "Fixed")]);
    let nominal = IconSize { size: 16, scale: 1 };
    assert_eq!(
        search_for_icon_in_directory(&[IconFileType::PNG, IconFileType::XPM], &fixed, nominal),
        Some((IconFileType::PNG, nominal))
    );
    assert_eq!(
        search_for_icon_in_directory(&[IconFileType::XPM], &fixed, IconSize { size: 32, scale: 1 }),
        Some((IconFileType::XPM, IconSize { size: 16, scale: 1 }))
    );
    assert_eq!(search_for_icon_in_directory(&[], &fixed, nominal), None);
}

#[test]
fn file_uris_name_icons_directly() {
    let info = icon_from_uri("file:///usr/share/icons/a.png").unwrap().unwrap();
    assert_eq!(info.path, "file:///usr/share/icons/a.png");
    assert_eq!(info.file_type, IconFileType::PNG);
    assert!(info.icon_size.is_none());
    assert!(matches!(icon_from_uri("file:///icons/a"), Some(Err(IconError::InvalidInput))));
    assert!(matches!(icon_from_uri("file:///icons/a.gif"), Some(Err(IconError::Unsupported))));
    assert!(icon_from_uri("firefox").is_none());
}

#[test]
fn index_reads_are_checked_first() {
    assert!(ini_field_readable(INDEX, "Directories"));
    assert!(ini_field_readable(INDEX, "Absent"));
    assert!(!ini_field_readable("Directories", "Directories"));
    assert!(ini_section_readable(INDEX, "16x16/apps"));
    assert!(!ini_section_readable("[a]", "a"));
}

#[test]
fn theme_search_takes_the_first_directory_with_the_icon() {
    let nominal = IconSize { size: 16, scale: 1 };
    let probes = vec![
        DirectoryProbe { is_dir: false, section: Some(section(&[("Size", "16")])), found: vec![IconFileType::PNG] },
        DirectoryProbe { is_dir: true, section: None, found: vec![IconFileType::PNG] },
        DirectoryProbe { is_dir: true, section: Some(section(&[("Size", "32"), ("Type", "Fixed")])), found: vec![] },
        DirectoryProbe { is_dir: true, section: Some(section(&[("Size", "32"), ("Type", "Fixed")])), found: vec![IconFileType::XPM] },
    ];
    assert_eq!(
        search_for_icon_in_icon_theme(&probes, nominal),
        Ok((3, IconFileType::XPM, IconSize { size: 32, scale: 1 }))
    );
    assert_eq!(search_for_icon_in_icon_theme(&probes[0..3].iter().map(|p| DirectoryProbe { is_dir: p.is_dir, section: None, found: p.found.clone() }).collect(), nominal), Err(IconError::NotFound));
}

#[test]
fn size_distance_is_the_distance_to_the_directory_range() {
    let threshold = section(&[("Size", "32"), ("Scale", "2"), ("Threshold", "4")]);
    // The directory holds 56..=72 pixels at scale two.
    assert_eq!(
        get_size_distance_for_icon(&threshold, IconSize { size: 30, scale: 2 }),
        Some((0, IconSize { size: 32, scale: 2 }))
    );
    assert_eq!(
        get_size_distance_for_icon(&threshold, IconSize { size: 20, scale: 2 }),
        Some((16, IconSize { size: 28, scale: 2 }))
    );
    assert_eq!(
        get_size_distance_for_icon(&threshold, IconSize { size: 40, scale: 2 }),
        Some((8, IconSize { size: 36, scale: 2 }))
    );
}
