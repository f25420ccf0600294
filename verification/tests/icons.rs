use padu::icons::{file_icon_for_name, file_icon_for_path};

const NAMES: [&str; 10] = [
    "README.md",
    "Cargo.toml",
    "Dockerfile.dev",
    "main.RS",
    "photo.JPEG",
    "bun.lock",
    "no_extension",
    ".gitignore",
    "archive.tar.gz",
    "",
];

#[test]
fn icon_lookup_ignores_ascii_case() {
    for name in NAMES {
        assert_eq!(file_icon_for_name(name), file_icon_for_name(&name.to_ascii_lowercase()), "{name}");
        assert_eq!(file_icon_for_name(name), file_icon_for_name(&name.to_ascii_uppercase()), "{name}");
    }
}

#[test]
fn every_icon_is_a_file_type_svg() {
    for name in NAMES {
        let icon = file_icon_for_name(name);
        assert!(icon.starts_with("icons/file-types/") && icon.ends_with(".svg"), "{icon}");
        let icon = file_icon_for_path(&format!("src/{name}"));
        assert!(icon.starts_with("icons/file-types/") && icon.ends_with(".svg"), "{icon}");
    }
}
