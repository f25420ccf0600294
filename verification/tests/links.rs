use padu::links::{normalized_path, transcript_link_route, workspace_relative_file_path, TranscriptLinkRoute};

#[test]
fn relative_markdown_links_route_to_workspace_files() {
    assert_eq!(
        transcript_link_route("apps/desktop/src/app/right_panel/files.rs", Some("/work/repo")),
        TranscriptLinkRoute::ProjectFile("apps/desktop/src/app/right_panel/files.rs".to_owned())
    );
}

#[test]
fn relative_links_cannot_escape_the_workspace() {
    assert_eq!(
        transcript_link_route("../outside.rs", Some("/work/repo")),
        TranscriptLinkRoute::External
    );
}

#[test]
fn transcript_file_links_route_by_the_active_workspace() {
    let workspace = "/work/padu/apps/desktop";
    let project_file = format!("{workspace}/src/app/right_panel.rs");
    let project_file_with_line = format!("{}:1596", project_file);
    let project_file_with_column = format!("{}:1596:8", project_file);
    let relative_project_file = "src/app/right_panel.rs".to_owned();

    assert_eq!(
        transcript_link_route(&project_file_with_line, Some(workspace)),
        TranscriptLinkRoute::ProjectFile(relative_project_file.clone())
    );
    assert_eq!(
        transcript_link_route(&project_file_with_column, Some(workspace)),
        TranscriptLinkRoute::ProjectFile(relative_project_file)
    );

    let encoded_file_url =
        url::Url::from_file_path(format!("{workspace}/My File.rs")).expect("absolute file path");
    assert_eq!(
        transcript_link_route(&format!("{encoded_file_url}#L12C4"), Some(workspace)),
        TranscriptLinkRoute::ProjectFile("My File.rs".into())
    );

    let outside_file = format!("{workspace}/../kero/src/app.rs");
    let outside_file_with_line = format!("{}:20", outside_file);
    assert_eq!(
        transcript_link_route(&outside_file_with_line, Some(workspace)),
        TranscriptLinkRoute::Finder(normalized_path(&outside_file))
    );
    assert_eq!(
        transcript_link_route("https://example.com/file.rs:12", Some(workspace)),
        TranscriptLinkRoute::External
    );
}

// Further cases of the library's own.

#[test]
fn normalization_removes_dots_and_repeated_separators() {
    assert_eq!(normalized_path("/a/./b//c/../d"), "/a/b/d");
    assert_eq!(normalized_path("a/b/../../c"), "c");
}

#[test]
fn workspace_relative_paths_need_a_strictly_inner_path() {
    assert_eq!(
        workspace_relative_file_path("/work/repo", "/work/repo/src/a.rs"),
        Some("src/a.rs".to_owned())
    );
    assert_eq!(workspace_relative_file_path("/work/repo", "/work/repo"), None);
    assert_eq!(workspace_relative_file_path("/work/repo", "/work/repository/a.rs"), None);
}

#[test]
fn links_without_a_workspace_only_reach_absolute_paths() {
    assert_eq!(
        transcript_link_route("/tmp/notes.md:3", None),
        TranscriptLinkRoute::Finder("/tmp/notes.md".to_owned())
    );
    assert_eq!(transcript_link_route("notes.md", None), TranscriptLinkRoute::External);
    assert_eq!(
        transcript_link_route("mailto:someone@example.com", Some("/work/repo")),
        TranscriptLinkRoute::External
    );
}

#[test]
fn file_urls_are_decoded_through_the_url_parser() {
    assert_eq!(
        padu::links::markdown_file_link_path("file:///tmp/a%20b.rs"),
        Some("/tmp/a b.rs".to_owned())
    );
    assert_eq!(padu::links::markdown_file_link_path("src/a.rs"), None);
}
