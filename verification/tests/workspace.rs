use session_parsers::cwd::{resolve_cursor_cwd, CwdQuestion};
use session_parsers::slash_path::{path_file_name, path_join, path_parent, path_spelled};
use session_parsers::workspace::decode_workspace_path;

/// Runs the search for a workspace name over the paths that exist.
fn decode(name: &str, existing: &[&str]) -> Option<String> {
    let mut search = decode_workspace_path(name);
    while let Some(path) = search.question() {
        let is_there = existing.contains(&path.as_str());
        search = search.answer(is_there);
    }
    search.found()
}

fn tried(name: &str) -> Vec<String> {
    let mut paths = Vec::new();
    let mut search = decode_workspace_path(name);
    while let Some(path) = search.question() {
        paths.push(path);
        search = search.answer(false);
    }
    paths
}

/// Runs the search for a session's directory over the projects, each with its
/// transcripts, and the paths that exist.
fn resolve(
    uuid: &str,
    projects: Option<&[(Option<&str>, &[&str])]>,
    existing: &[&str],
) -> Option<String> {
    let mut search = resolve_cursor_cwd(uuid);
    loop {
        match search.question() {
            CwdQuestion::Projects(dir) => {
                assert_eq!(dir, ".cursor/projects");
                let names = projects.map(|list| {
                    list.iter().map(|(name, _)| name.map(|n| n.to_string())).collect()
                });
                search = search.projects(names);
            }
            CwdQuestion::Transcript(at, dir, file) => {
                let file = format!("{}/{}", dir, file);
                let is_there = projects.unwrap()[at].1.contains(&file.as_str());
                search = search.answer(is_there);
            }
            CwdQuestion::Path(path) => {
                let is_there = existing.contains(&path.as_str());
                search = search.answer(is_there);
            }
            CwdQuestion::Done(cwd) => return cwd,
        }
    }
}

#[test]
fn test_decode_workspace_path() {
    let dir_str = "/tmp/.tmpAbCdEf";
    let nested = "/tmp/.tmpAbCdEf/a/b.c/d";
    let existing = ["/tmp", dir_str, "/tmp/.tmpAbCdEf/a", "/tmp/.tmpAbCdEf/a/b.c", nested];
    let parts: Vec<&str> = dir_str.trim_start_matches('/').split('/').collect();
    let mut encoded_parts = parts.clone();
    encoded_parts.extend_from_slice(&["a", "b", "c", "d"]);
    let encoded = encoded_parts.join("-");

    let result = decode(&encoded, &existing);
    assert_eq!(result, Some(nested.to_string()));
}

#[test]
fn test_decode_workspace_path_simple() {
    let dir_str = "/tmp/.tmpAbCdEf";
    let project = "/tmp/.tmpAbCdEf/myproject";
    let existing = ["/tmp", dir_str, project];
    let parts: Vec<&str> = dir_str.trim_start_matches('/').split('/').collect();
    let mut encoded_parts = parts;
    encoded_parts.push("myproject");
    let encoded = encoded_parts.join("-");

    let result = decode(&encoded, &existing);
    assert_eq!(result, Some(project.to_string()));
}

#[test]
fn test_resolve_cursor_cwd_not_found() {
    let projects: [(Option<&str>, &[&str]); 2] = [
        (Some("home-user-project"), &["agent-transcripts/some-other-uuid.jsonl"]),
        (Some("tmp"), &[]),
    ];
    let existing = ["/home/user/project", "/tmp"];
    let result = resolve("nonexistent-uuid-12345", Some(&projects), &existing);
    assert!(result.is_none());
    let result = resolve("nonexistent-uuid-12345", Some(&[]), &existing);
    assert!(result.is_none());
    let result = resolve("nonexistent-uuid-12345", None, &existing);
    assert!(result.is_none());
}

#[test]
fn the_first_project_with_the_transcript_is_decoded() {
    let projects: [(Option<&str>, &[&str]); 4] = [
        (Some("home-a"), &[]),
        (Some("home-b-c"), &["agent-transcripts/u-1.jsonl"]),
        (Some("home-d"), &["agent-transcripts/u-1.jsonl"]),
        (None, &["agent-transcripts/u-2.jsonl"]),
    ];
    let existing = ["/home", "/home/a", "/home/b.c", "/home/d"];
    assert_eq!(resolve("u-1", Some(&projects), &existing), Some("/home/b.c".to_string()));
    assert_eq!(resolve("u-1", Some(&projects), &[]), None);
    assert_eq!(resolve("u-2", Some(&projects), &existing), None);
}

#[test]
fn paths_are_tried_below_before_beside() {
    assert_eq!(
        tried("a-b-c"),
        vec!["/a", "/a/b", "/a/b/c", "/a/b.c", "/a.b", "/a.b/c", "/a.b.c"]
    );
    assert_eq!(tried("a"), vec!["/a"]);
    assert_eq!(tried(""), vec!["/"]);
    assert_eq!(tried("-a"), vec!["/", "/a", "/.a"]);
    assert_eq!(
        tried("u--x"),
        vec!["/u", "/u/", "/u/x", "/u.x", "/u/.x", "/u.", "/u./x", "/u..x"]
    );
    assert_eq!(tried("a-."), vec!["/a", "/a/.", "/a.."]);
    assert_eq!(tried("a-..-b"), vec!["/a", "/a/..", "/a/../b", "/a...", "/a.../b", "/a....b"]);
    assert_eq!(tried("a-/b"), vec!["/a", "/b", "/a./b"]);
}

#[test]
fn the_path_that_uses_most_of_the_name_is_found() {
    assert_eq!(decode("a-b-c", &["/a", "/a/b/c"]), Some("/a/b/c".to_string()));
    assert_eq!(
        decode("a-b-c", &["/", "/a", "/a/b", "/a/b/c", "/a.b"]),
        Some("/a/b/c".to_string())
    );
    assert_eq!(decode("a-b-c", &["/a/b/c", "/a.b.c", "/a/b.c"]), Some("/a.b.c".to_string()));
    assert_eq!(decode("a-b-c", &["/a", "/a/b"]), Some("/a/b".to_string()));
    assert_eq!(decode("a-b-c", &["/a", "/a/b", "/a.b"]), Some("/a.b".to_string()));
    assert_eq!(decode("a-b-c", &["/a"]), Some("/a".to_string()));
    assert_eq!(decode("a-b-c", &["/x"]), None);
}

#[test]
fn a_path_comes_back_from_its_name() {
    for path in ["/home/user/project", "/srv/v1.2/app", "/srv/a..b/c.", "/x"] {
        let name = path[1..].replace(['/', '.'], "-");
        assert_eq!(decode(&name, &[path]), Some(path.to_string()));
    }
    let path = "/home/u/.config";
    assert_eq!(decode("home-u--config", &["/home", "/home/u", path]), Some(path.to_string()));
    assert_eq!(decode("h--c", &["/", "/h", "/h/", "/h/.c"]), Some("/h/.c".to_string()));
    assert_eq!(decode("h--c", &["/h", "/h/c"]), Some("/h/c".to_string()));
    assert_eq!(decode("h--c", &["/h/.c", "/h/c", "/h.c"]), Some("/h/.c".to_string()));
    assert_eq!(decode("h---c", &["/h/..c", "/h/c", "/h.c"]), Some("/h/..c".to_string()));
    assert_eq!(decode("-a", &["/", "/.a"]), Some("/.a".to_string()));
    assert_eq!(decode("-a", &["/", "/a"]), Some("/a".to_string()));
    // Each `-` of a name is taken for a `/` or a `.`, never for itself.
    assert_eq!(decode("my-project", &["/my-project"]), None);
}

#[test]
fn parts_of_paths() {
    assert_eq!(path_file_name("/a/b.c"), Some("b.c".to_string()));
    assert_eq!(path_file_name("/a/b//"), Some("b".to_string()));
    assert_eq!(path_file_name("a/."), Some("a".to_string()));
    assert_eq!(path_file_name("a/.."), None);
    assert_eq!(path_file_name("/"), None);
    assert_eq!(path_file_name("."), None);
    assert_eq!(path_parent("/a/b"), Some("/a".to_string()));
    assert_eq!(path_parent("/a//b/"), Some("/a".to_string()));
    assert_eq!(path_parent("/a/./b"), Some("/a".to_string()));
    assert_eq!(path_parent("/a"), Some("/".to_string()));
    assert_eq!(path_parent("a"), Some("".to_string()));
    assert_eq!(path_parent("./a"), Some(".".to_string()));
    assert_eq!(path_parent("//"), None);
    assert_eq!(path_parent("/."), None);
    assert_eq!(path_parent(""), None);
    assert_eq!(path_join("/a", "b"), "/a/b");
    assert_eq!(path_join("/", "b"), "/b");
    assert_eq!(path_join("", "b"), "b");
    assert_eq!(path_join("/a", "/b"), "/b");
    assert_eq!(path_join("/a", ""), "/a/");
}

#[test]
fn parts_of_paths_agree_with_the_machine() {
    if std::path::MAIN_SEPARATOR != '/' {
        return;
    }
    let samples = [
        "", "/", ".", "..", "./", "/.", "//", "a", "a/", "a/.", "a/..", "a/b", "a//b", "a/./b",
        "/a", "/a/", "/a/b", "/a/b/", "/a/b/.", "./a", "../a", "a/../b", "/a//", "a.b", "/a/.b",
        "/..", "/a/...", "./.", "././", "a/././b",
    ];
    for path in samples {
        let p = std::path::Path::new(path);
        let name = p.file_name().and_then(|n| n.to_str()).map(|n| n.to_string());
        let up = p.parent().and_then(|n| n.to_str()).map(|n| n.to_string());
        assert_eq!(path_file_name(path), name, "name of {:?}", path);
        assert_eq!(path_parent(path), up, "parent of {:?}", path);
        for part in samples {
            let joined = p.join(part).to_str().map(|s| s.to_string());
            assert_eq!(Some(path_join(path, part)), joined, "{:?} and {:?}", path, part);
        }
    }
}

#[test]
fn paths_are_spelled_for_the_machine() {
    assert_eq!(path_spelled("/a/b.c/d", "/"), "/a/b.c/d");
    assert_eq!(path_spelled("/a/b.c/d", "\\"), "/a\\b.c\\d");
    assert_eq!(path_spelled("/", "\\"), "/");
    assert_eq!(path_spelled("a/b", "\\"), "a\\b");
    assert_eq!(path_spelled("", "\\"), "");
}
