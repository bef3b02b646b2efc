use minishell::resolve::candidate_paths;
use minishell::resolve::contains_slash;
use minishell::resolve::select_first;
use minishell::resolve::split_colon;

#[test]
fn splits_path_on_colons() {
    assert_eq!(split_colon("/a:/b:/c"), vec!["/a", "/b", "/c"]);
    assert_eq!(split_colon("/usr/bin"), vec!["/usr/bin"]);
    assert_eq!(split_colon(""), vec![""]);
    assert_eq!(split_colon("a::b"), vec!["a", "", "b"]);
}

#[test]
fn detects_path_separator() {
    assert!(contains_slash("a/b"));
    assert!(contains_slash("/abs"));
    assert!(!contains_slash("cmd"));
}

#[test]
fn candidates_follow_path_order() {
    let path = Some(String::from("/a:/b"));
    assert_eq!(candidate_paths("cmd", &path), vec!["/a/cmd", "/b/cmd"]);
}

#[test]
fn explicit_path_is_its_own_candidate() {
    let path = Some(String::from("/a:/b"));
    assert_eq!(candidate_paths("./cmd", &path), vec!["./cmd"]);
    assert_eq!(candidate_paths("/usr/bin/cmd", &path), vec!["/usr/bin/cmd"]);
}

#[test]
fn missing_search_path_yields_no_candidates() {
    assert_eq!(candidate_paths("cmd", &None), Vec::<String>::new());
}

#[test]
fn first_present_candidate_wins() {
    let candidates = vec![String::from("/a/cmd"), String::from("/b/cmd")];
    assert_eq!(
        select_first(&candidates, &vec![true, true]),
        Some(String::from("/a/cmd"))
    );
    assert_eq!(
        select_first(&candidates, &vec![false, true]),
        Some(String::from("/b/cmd"))
    );
    assert_eq!(select_first(&candidates, &vec![false, false]), None);
}

#[test]
fn resolution_prefers_earlier_directory() {
    let path = Some(String::from("/a:/b"));
    let candidates = candidate_paths("cmd", &path);
    let present: Vec<bool> = candidates.iter().map(|_| true).collect();
    assert_eq!(select_first(&candidates, &present), Some(String::from("/a/cmd")));
}
