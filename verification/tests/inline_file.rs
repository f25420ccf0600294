use padu::inline_file::{
    file_backspace_range, file_delete_range, inline_reference_insertion, is_local_file_target,
    markdown_file_reference, parse_inline_file_references, target_basename,
};
use padu::projection::InlineFileProjection;

#[test]
fn formats_basename_and_preserves_full_target() {
    assert_eq!(
        markdown_file_reference("apps/desktop/src/app/right_panel/files.rs"),
        "[files.rs](apps/desktop/src/app/right_panel/files.rs)"
    );
    assert_eq!(
        markdown_file_reference("docs/a file (old).md"),
        "[a file (old).md](docs/a%20file%20\\(old\\).md)"
    );
    assert_eq!(
        markdown_file_reference("src/widgets/"),
        "[widgets](src/widgets/)"
    );
}

#[test]
fn parses_only_local_markdown_links_and_uses_target_basename() {
    let source =
        "see [wrong](src/right.rs) [web](https://example.com) ![img](shot.png) [dir](src/ui/)";
    let parsed = parse_inline_file_references(source);
    assert_eq!(parsed.len(), 2);
    assert_eq!(parsed[0].basename, "right.rs");
    assert_eq!(parsed[0].target, "src/right.rs");
    assert!(!parsed[0].is_dir);
    assert_eq!(parsed[1].basename, "ui");
    assert!(parsed[1].is_dir);
}

#[test]
fn parses_escaped_destinations_and_line_locations() {
    let source = r"[old](docs/a%20file%20\(old\).md#L12) and [rust](src/main.rs:42)";
    let parsed = parse_inline_file_references(source);
    assert_eq!(parsed[0].target, "docs/a file (old).md#L12");
    assert_eq!(parsed[0].basename, "a file (old).md");
    assert_eq!(parsed[1].basename, "main.rs");
}

#[test]
fn rejects_uri_schemes_but_accepts_windows_drive_paths() {
    assert!(!is_local_file_target("javascript:alert(1)"));
    assert!(!is_local_file_target("data:text/plain,x"));
    assert!(!is_local_file_target("VBScript:msgbox(1)"));
    assert!(is_local_file_target("C:/src/app.ts"));
}

#[test]
fn insertion_adds_only_needed_outer_whitespace() {
    assert_eq!(
        inline_reference_insertion("hello", 5, "src/a.rs"),
        " [a.rs](src/a.rs)"
    );
    assert_eq!(
        inline_reference_insertion("hello world", 5, "src/a.rs"),
        " [a.rs](src/a.rs)"
    );
    assert_eq!(
        inline_reference_insertion("hello world", 6, "src/a.rs"),
        "[a.rs](src/a.rs) "
    );
}

#[test]
fn projection_maps_each_chip_atomically_in_both_directions() {
    let source = "before [a.rs](src/a.rs) after";
    let projection = InlineFileProjection::new(source);
    let file = &projection.files[0];
    assert_eq!(&projection.display[file.label_range.clone()], "a.rs");
    assert_eq!(
        projection.source_to_display(file.source_range.start),
        file.display_range.start
    );
    assert_eq!(
        projection.source_to_display(file.source_range.end),
        file.display_range.end
    );
    assert_eq!(
        projection.display_to_source(file.display_range.start),
        file.source_range.start
    );
    assert_eq!(
        projection.display_to_source(file.display_range.end),
        file.source_range.end
    );
    for offset in file.chip_range.clone() {
        assert!(matches!(
            projection.display_to_source(offset),
            value if value == file.source_range.start || value == file.source_range.end
        ));
    }
}

#[test]
fn deletion_ranges_remove_a_whole_chip_and_its_trailing_separator() {
    let source = "before [a.rs](src/a.rs) after";
    let file = &parse_inline_file_references(source)[0];
    assert_eq!(
        file_backspace_range(source, file.source_range.end + 1),
        Some(file.source_range.start..file.source_range.end + 1)
    );
    assert_eq!(
        file_delete_range(source, file.source_range.start),
        Some(file.source_range.start..file.source_range.end + 1)
    );
    assert_eq!(file_delete_range(source, 0), None);
}

#[test]
fn projection_keeps_plain_text_and_multiple_file_order() {
    let source = "[a](one/a.rs) + [b](two/b.rs)";
    let projection = InlineFileProjection::new(source);
    assert_eq!(projection.files.len(), 2);
    assert!(projection.display.contains("a.rs"));
    assert!(projection.display.contains(" + "));
    assert!(projection.display.contains("b.rs"));
    assert_eq!(
        projection.display_to_source(projection.display.len()),
        source.len()
    );
}

// Further cases of the library's own.

#[test]
fn plain_projection_round_trips_every_offset() {
    let source = "no links here";
    let projection = InlineFileProjection::plain(source);
    assert_eq!(projection.display, source);
    for offset in 0..=source.len() {
        assert_eq!(projection.display_to_source(projection.source_to_display(offset)), offset);
    }
}

#[test]
fn chip_offsets_inside_a_link_snap_to_its_ends() {
    let source = "x [a.rs](src/a.rs) y";
    let projection = InlineFileProjection::new(source);
    let file = &projection.files[0];
    let inside = file.source_range.start + 3;
    let mapped = projection.source_to_display(inside);
    assert!(mapped == file.display_range.start || mapped == file.display_range.end);
}

#[test]
fn percent_decoding_and_unescaping_show_the_plain_target() {
    assert_eq!(padu::inline_file::percent_decode("a%20b%2Fc"), "a b/c");
    assert_eq!(padu::inline_file::percent_decode("100%"), "100%");
    assert_eq!(padu::inline_file::unescape_markdown(r"a\(b\)"), "a(b)");
    assert_eq!(padu::inline_file::hex_value(b'f'), Some(15));
    assert_eq!(padu::inline_file::hex_value(b'g'), None);
}

#[test]
fn escaping_keeps_labels_and_destinations_parseable() {
    assert_eq!(padu::inline_file::escape_markdown_label("a[b]"), "a\\[b\\]");
    assert_eq!(
        padu::inline_file::escape_markdown_destination("a b(c)"),
        "a%20b\\(c\\)"
    );
    let reference = markdown_file_reference("src/a b.rs");
    let parsed = parse_inline_file_references(&reference);
    assert_eq!(parsed.len(), 1);
    assert_eq!(parsed[0].target, "src/a b.rs");
}

#[test]
fn a_written_reference_parses_back_as_one_reference() {
    for target in [
        "src/main.rs",
        "docs/a file (old).md",
        "notes/[draft] ]odd[.txt",
        "/abs/path/with/ünïcödé/日本.txt",
        "dir/with)paren(/",
        "C:/Users/me/file.txt",
    ] {
        let written = markdown_file_reference(target);
        let refs = parse_inline_file_references(&written);
        assert_eq!(refs.len(), 1, "{written}");
        assert_eq!(refs[0].source_range, 0..written.len());
        assert_eq!(refs[0].target, target);
        assert_eq!(refs[0].basename, target_basename(target));
        assert_eq!(refs[0].is_dir, target.ends_with('/'));
    }
}
