use padu::archive::{archived_search_query, archived_sessions, ArchivedSession};

fn session(id: &str, title: &str, project: &str, path: &str, at: Option<u64>) -> ArchivedSession {
    ArchivedSession {
        id: id.into(),
        title: title.into(),
        project_name: project.into(),
        project_path: path.into(),
        archived_at: at,
    }
}

fn sessions() -> Vec<ArchivedSession> {
    vec![
        session("aaaa-1", "Fix the Parser", "Padu", "/work/padu", Some(10)),
        session("bbbb-2", "Write docs", "Site", "/work/site", Some(30)),
        session("cccc-3", "Live session", "Padu", "/work/padu", None),
        session("dddd-4", "Refactor tabs", "", "", Some(10)),
        session("eeee-5", "ÉCOLE notes", "Notes", "/home/Notes", Some(20)),
    ]
}

#[test]
fn the_query_is_trimmed_and_lowercased() {
    assert_eq!(archived_search_query("  PaRser \n"), "parser");
    assert_eq!(archived_search_query("ÉCOLE"), "école");
    assert_eq!(archived_search_query("   "), "");
}

#[test]
fn an_empty_search_lists_every_archived_session_newest_first() {
    assert_eq!(archived_sessions(&sessions(), &String::new()), vec![1, 4, 0, 3]);
}

#[test]
fn a_search_matches_titles_ids_and_projects() {
    let all = sessions();
    assert_eq!(archived_sessions(&all, &archived_search_query("PARSER")), vec![0]);
    assert_eq!(archived_sessions(&all, &archived_search_query("dddd")), vec![3]);
    assert_eq!(archived_sessions(&all, &archived_search_query("padu")), vec![0]);
    assert_eq!(archived_sessions(&all, &archived_search_query("/work")), vec![1, 0]);
    assert_eq!(archived_sessions(&all, &archived_search_query("école")), vec![4]);
    assert_eq!(archived_sessions(&all, &archived_search_query("home/notes")), vec![4]);
    assert!(archived_sessions(&all, &archived_search_query("nothing")).is_empty());
}
