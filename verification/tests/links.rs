use sg::{
    clean_remote, normalize, normalize_at, normalize_url, parse_link, parse_reference,
    uri_from_link, HostAlias, LinkError, RemoteFile,
};

fn return_raw_commit(_remote: String, commit: String) -> Result<String, LinkError> {
    Ok(commit)
}

fn never_called(_remote: String, _commit: String) -> Result<String, LinkError> {
    panic!("the resolver must not be called")
}

#[test]
fn create() {
    let test_cases = vec![
        "https://sourcegraph.com/github.com/neovim/neovim/-/blob/src/nvim/autocmd.c",
        "https://sourcegraph.com/github.com/neovim/neovim/-/tree/src/nvim/autocmd.c",
        "sg://github.com/neovim/neovim/-/blob/src/nvim/autocmd.c",
        "sg://github.com/neovim/neovim/-/tree/src/nvim/autocmd.c",
        "sg://gh/neovim/neovim/-/blob/src/nvim/autocmd.c",
        "sg://gh/neovim/neovim/-/tree/src/nvim/autocmd.c",
        "sg://github.com/neovim/neovim/-/src/nvim/autocmd.c",
        "sg://gh/neovim/neovim/-/src/nvim/autocmd.c",
    ];
    for tc in test_cases {
        let x = uri_from_link(tc, return_raw_commit).unwrap();
        assert_eq!(x.remote, "github.com/neovim/neovim");
        assert_eq!(x.commit, "HEAD");
        assert_eq!(x.path, "src/nvim/autocmd.c");
        assert_eq!(x.line, None);
        assert_eq!(x.col, None);
    }
}

#[test]
fn can_get_lines_and_columns() {
    let test_case = "sg://github.com/sourcegraph/sourcegraph@main/-/blob/dev/sg/rfc.go?L29:2";
    let remote_file = uri_from_link(test_case, return_raw_commit).unwrap();
    assert_eq!(remote_file.remote, "github.com/sourcegraph/sourcegraph");
    assert_eq!(remote_file.commit, "main");
    assert_eq!(remote_file.path, "dev/sg/rfc.go");
    assert_eq!(remote_file.line, Some(29));
    assert_eq!(remote_file.col, Some(2));
}

#[test]
fn aliased_short_link_without_revision() {
    let parsed = parse_link("sg://gh/neovim/neovim/-/blob/src/nvim/autocmd.c").unwrap();
    assert_eq!(parsed.remote, "github.com/neovim/neovim");
    assert_eq!(parsed.revision, "HEAD");
    assert_eq!(parsed.path, "src/nvim/autocmd.c");
    assert_eq!(parsed.line, None);
    assert_eq!(parsed.col, None);
}

#[test]
fn web_form_without_marker_agrees_with_the_others() {
    let plain = parse_link("https://sourcegraph.com/github.com/neovim/neovim@main/-/a/b").unwrap();
    let blob = parse_link("sg://gh/neovim/neovim@main/-/blob/a/b").unwrap();
    let tree = parse_link("sg://github.com/neovim/neovim@main/-/tree/a/b").unwrap();
    for other in [&blob, &tree] {
        assert_eq!(plain.remote, other.remote);
        assert_eq!(plain.revision, other.revision);
        assert_eq!(plain.path, other.path);
    }
    assert_eq!(plain.revision, "main");
    assert_eq!(plain.path, "a/b");
}

#[test]
fn web_form_expands_the_alias() {
    let parsed = parse_link("https://sourcegraph.com/gh/neovim/neovim/-/blob/x").unwrap();
    assert_eq!(parsed.remote, "github.com/neovim/neovim");
    assert_eq!(parsed.path, "x");
    assert_eq!(
        normalize_url("https://sourcegraph.com/gh/neovim/neovim/-/blob/x"),
        "github.com/neovim/neovim/-/blob/x"
    );
}

#[test]
fn every_way_of_writing_a_link_agrees() {
    for opening in ["https://sourcegraph.com/", "sg://"] {
        for host in ["github.com", "gh"] {
            for marker in ["blob/", "tree/", ""] {
                let link = format!("{}{}/neovim/neovim@main/-/{}src/nvim/autocmd.c", opening, host, marker);
                let parsed = parse_link(&link).unwrap();
                assert_eq!(parsed.remote, "github.com/neovim/neovim");
                assert_eq!(parsed.revision, "main");
                assert_eq!(parsed.path, "src/nvim/autocmd.c");
                assert_eq!((parsed.line, parsed.col), (None, None));
            }
        }
    }
}

#[test]
fn normalize_url_rewrites_each_form() {
    assert_eq!(normalize_url("sg://gh/a/b/-/blob/x"), "github.com/a/b/-/blob/x");
    assert_eq!(normalize_url("sg://github.com/a/b/-/x"), "github.com/a/b/-/x");
    assert_eq!(
        normalize_url("https://sourcegraph.com/github.com/a/b@main/-/tree/x"),
        "github.com/a/b@main/-/tree/x"
    );
    assert_eq!(normalize_url("github.com/a/b/-/x"), "github.com/a/b/-/x");
    assert_eq!(normalize_url(""), "");
}

#[test]
fn normalize_url_rewrites_the_front_only() {
    assert_eq!(
        normalize_url("sg://github.com/a/b/-/blob/docs/sg://x"),
        "github.com/a/b/-/blob/docs/sg://x"
    );
    assert_eq!(
        normalize_url("sg://github.com/a/b/-/blob/https://sourcegraph.com/x"),
        "github.com/a/b/-/blob/https://sourcegraph.com/x"
    );
    assert_eq!(normalize_url("sg://github.com/a//gh/b/-/x"), "github.com/a//gh/b/-/x");
    assert_eq!(normalize_url("x//gh/y"), "x//gh/y");
    assert_eq!(normalize_url("asg://bsg://c"), "asg://bsg://c");
    assert_eq!(normalize_url("https://gh/a"), "https://gh/a");
    assert_eq!(normalize_url("not a link"), "not a link");
}

#[test]
fn alias_is_expanded_only_before_a_slash() {
    assert_eq!(normalize_url("sg://gh"), "gh");
    assert_eq!(normalize_url("sg://ghx/a"), "ghx/a");
    assert_eq!(normalize_url("sg://gh/"), "github.com/");
    assert_eq!(normalize_url("https://sourcegraph.com/gh"), "gh");
    assert_eq!(normalize_url("gh/a/b/-/x"), "gh/a/b/-/x");
}

#[test]
fn each_opening_leaves_in_its_turn() {
    assert_eq!(normalize_url("https://sourcegraph.com/sg://x"), "x");
    assert_eq!(normalize_url("sg://https://sourcegraph.com/x"), "https://sourcegraph.com/x");
    assert_eq!(normalize_url("sg://sg://x"), "sg://x");
    assert_eq!(normalize_url("sg://"), "");
    assert_eq!(normalize_url("https://sourcegraph.com/"), "");
    assert_eq!(normalize_url("https://sourcegraph.com"), "https://sourcegraph.com");
}

#[test]
fn normalize_with_other_service_and_aliases() {
    let aliases = vec![
        HostAlias { alias: "gl".to_string(), host: "gitlab.com".to_string() },
        HostAlias { alias: "gh".to_string(), host: "github.com".to_string() },
    ];
    let service = "https://code.example.org/";
    assert_eq!(normalize("https://code.example.org/gitlab.com/a/b/-/x", &aliases, service), "gitlab.com/a/b/-/x");
    assert_eq!(normalize("https://code.example.org/gl/a/b/-/x", &aliases, service), "gitlab.com/a/b/-/x");
    assert_eq!(normalize("sg://gl/a/b/-/x", &aliases, service), "gitlab.com/a/b/-/x");
    assert_eq!(normalize("sg://gh/a/b/-/x", &aliases, service), "github.com/a/b/-/x");
    assert_eq!(
        normalize("https://sourcegraph.com/gh/a/b/-/x", &aliases, service),
        "https://sourcegraph.com/gh/a/b/-/x"
    );
    assert_eq!(normalize("sg://gh/a/b/-/x", &aliases, ""), "github.com/a/b/-/x");
    assert_eq!(normalize("gh/a/b/-/x", &aliases, ""), "gh/a/b/-/x");
    assert_eq!(normalize("sg://gh/a/b/-/x", &Vec::new(), ""), "gh/a/b/-/x");
}

#[test]
fn normalize_at_takes_the_endpoint_and_one_slash() {
    let aliases = vec![HostAlias { alias: "gh".to_string(), host: "github.com".to_string() }];
    let endpoint = "https://sourcegraph.com";
    assert_eq!(normalize_at("https://sourcegraph.com/github.com/a/b/-/x", &aliases, endpoint), "github.com/a/b/-/x");
    assert_eq!(normalize_at("https://sourcegraph.com/gh/a/b/-/x", &aliases, endpoint), "github.com/a/b/-/x");
    assert_eq!(normalize_at("sg://gh/a/b/-/x", &aliases, endpoint), "github.com/a/b/-/x");
    assert_eq!(normalize_at("/github.com/a/b/-/x", &aliases, endpoint), "github.com/a/b/-/x");
    assert_eq!(normalize_at("//github.com/a", &aliases, endpoint), "/github.com/a");
    assert_eq!(normalize_at("https://sourcegraph.com//github.com/a", &aliases, endpoint), "/github.com/a");
    assert_eq!(normalize_at("github.com/a/b/-/blob/docs/sg://x", &aliases, endpoint), "github.com/a/b/-/blob/docs/sg://x");
    assert_eq!(normalize_at("sg:///x", &aliases, endpoint), "x");
    assert_eq!(normalize_at("", &aliases, endpoint), "");
    assert_eq!(normalize_at("https://sg.example.org/gh/a", &aliases, "https://sg.example.org"), "github.com/a");
}

#[test]
fn aliases_expand_in_the_order_given() {
    let aliases = vec![
        HostAlias { alias: "a".to_string(), host: "b".to_string() },
        HostAlias { alias: "b".to_string(), host: "c".to_string() },
    ];
    assert_eq!(normalize("sg://a/x", &aliases, ""), "c/x");
}

#[test]
fn link_without_separator_is_malformed() {
    assert_eq!(parse_reference("github.com/a/b").unwrap_err(), LinkError::MalformedReference);
    assert_eq!(parse_reference("").unwrap_err(), LinkError::MalformedReference);
}

#[test]
fn link_with_two_separators_is_malformed() {
    assert_eq!(parse_reference("a/-/b/-/c").unwrap_err(), LinkError::MalformedReference);
}

#[test]
fn overlapping_separators_count_once() {
    let parsed = parse_reference("a/-/-/b").unwrap();
    assert_eq!(parsed.remote, "a");
    assert_eq!(parsed.path, "-/b");
}

#[test]
fn empty_remote_is_malformed() {
    assert_eq!(parse_reference("/-/x").unwrap_err(), LinkError::MalformedReference);
    assert_eq!(parse_reference("@main/-/x").unwrap_err(), LinkError::MalformedReference);
    assert_eq!(parse_link("sg:///-/x").unwrap_err(), LinkError::MalformedReference);
}

#[test]
fn empty_remote_is_reported_before_query_markers() {
    assert_eq!(parse_reference("/-/x?a?b").unwrap_err(), LinkError::MalformedReference);
}

#[test]
fn revision_is_what_follows_the_first_at() {
    let parsed = parse_reference("a@b@c/-/x").unwrap();
    assert_eq!(parsed.remote, "a");
    assert_eq!(parsed.revision, "b@c");
    let parsed = parse_reference("a@/-/x").unwrap();
    assert_eq!(parsed.remote, "a");
    assert_eq!(parsed.revision, "");
}

#[test]
fn doubled_slashes_leave_the_remote() {
    let parsed = parse_link("sg://github.com//a///b@r//s/-/x//y").unwrap();
    assert_eq!(parsed.remote, "github.com/a/b");
    assert_eq!(parsed.revision, "r//s");
    assert_eq!(parsed.path, "x//y");
}

#[test]
fn only_one_leading_marker_is_stripped() {
    assert_eq!(parse_reference("a/-/blob/blob/x").unwrap().path, "blob/x");
    assert_eq!(parse_reference("a/-/tree/blob/x").unwrap().path, "blob/x");
    assert_eq!(parse_reference("a/-/x/blob/y").unwrap().path, "x/blob/y");
    assert_eq!(parse_reference("a/-/blob").unwrap().path, "blob");
    assert_eq!(parse_reference("a/-/blobs/x").unwrap().path, "blobs/x");
    assert_eq!(parse_reference("a/-/blob/").unwrap().path, "");
    assert_eq!(parse_reference("a/-/").unwrap().path, "");
}

#[test]
fn two_query_markers_fail_and_nothing_is_resolved() {
    let err = uri_from_link("sg://github.com/a/b/-/blob/x?L1:2?L3:4", never_called).unwrap_err();
    assert_eq!(err, LinkError::TooManyQueryMarkers);
    let err = uri_from_link("sg://github.com/a/b/-/x??", never_called).unwrap_err();
    assert_eq!(err, LinkError::TooManyQueryMarkers);
    let err = uri_from_link("no separator", never_called).unwrap_err();
    assert_eq!(err, LinkError::MalformedReference);
}

#[test]
fn suffix_without_exactly_one_colon_gives_no_position() {
    for link in ["a/-/x?L5", "a/-/x?", "a/-/x?L1:2:3", "a/-/x?::"] {
        let parsed = parse_reference(link).unwrap();
        assert_eq!(parsed.path, "x");
        assert_eq!(parsed.line, None);
        assert_eq!(parsed.col, None);
    }
}

#[test]
fn unreadable_numbers_become_one() {
    let parsed = parse_reference("a/-/x?Lfoo:bar").unwrap();
    assert_eq!((parsed.line, parsed.col), (Some(1), Some(1)));
    let parsed = parse_reference("a/-/x?:").unwrap();
    assert_eq!((parsed.line, parsed.col), (Some(1), Some(1)));
    let parsed = parse_reference("a/-/x?L:7").unwrap();
    assert_eq!((parsed.line, parsed.col), (Some(1), Some(7)));
    let parsed = parse_reference("a/-/x?L12:").unwrap();
    assert_eq!((parsed.line, parsed.col), (Some(12), Some(1)));
    let parsed = parse_reference("a/-/x?L-3:4 ").unwrap();
    assert_eq!((parsed.line, parsed.col), (Some(1), Some(1)));
    let parsed = parse_reference("a/-/x?L99999999999999999999999999:18446744073709551616").unwrap();
    assert_eq!((parsed.line, parsed.col), (Some(1), Some(1)));
}

#[test]
fn numbers_are_read_in_full() {
    let parsed = parse_reference("a/-/x?L0:0").unwrap();
    assert_eq!((parsed.line, parsed.col), (Some(0), Some(0)));
    let parsed = parse_reference("a/-/x?L+5:+12").unwrap();
    assert_eq!((parsed.line, parsed.col), (Some(5), Some(12)));
    let parsed = parse_reference("a/-/x?L007:4294967295").unwrap();
    assert_eq!((parsed.line, parsed.col), (Some(7), Some(4294967295)));
    let parsed = parse_reference("a/-/x?X29:2").unwrap();
    assert_eq!((parsed.line, parsed.col), (Some(29), Some(2)));
    let parsed = parse_reference("a/-/x?29:2").unwrap();
    assert_eq!((parsed.line, parsed.col), (Some(9), Some(2)));
}

#[test]
fn largest_machine_word_is_read() {
    let link = format!("a/-/x?L{}:{}", usize::MAX, usize::MAX);
    let parsed = parse_reference(&link).unwrap();
    assert_eq!((parsed.line, parsed.col), (Some(usize::MAX), Some(usize::MAX)));
}

#[test]
fn resolver_failure_is_the_result() {
    let err = uri_from_link("sg://gh/a/b@main/-/x", |_r: String, _c: String| {
        Err(LinkError::LookupTimeout)
    })
    .unwrap_err();
    assert_eq!(err, LinkError::LookupTimeout);
}

#[test]
fn resolver_gets_remote_and_revision() {
    let file = uri_from_link("sg://gh/a/b@main/-/blob/src/x?L3:4", |remote: String, revision: String| {
        Ok(format!("{}#{}", remote, revision))
    })
    .unwrap();
    assert_eq!(file.commit, "github.com/a/b#main");
    assert_eq!(file.remote, "github.com/a/b");
    assert_eq!(file.path, "src/x");
    assert_eq!((file.line, file.col), (Some(3), Some(4)));
}

#[test]
fn from_parsed_keeps_every_part() {
    let parsed = parse_reference("h/r@v/-/p?L1:2").unwrap();
    let file = RemoteFile::from_parsed(parsed, "c".to_string());
    assert_eq!(file.remote, "h/r");
    assert_eq!(file.commit, "c");
    assert_eq!(file.path, "p");
    assert_eq!((file.line, file.col), (Some(1), Some(2)));
}

#[test]
fn non_ascii_text_is_kept() {
    let parsed = parse_link("sg://gh/ä/ö@ü/-/blob/é/ñ.rs?L2:3").unwrap();
    assert_eq!(parsed.remote, "github.com/ä/ö");
    assert_eq!(parsed.revision, "ü");
    assert_eq!(parsed.path, "é/ñ.rs");
    assert_eq!((parsed.line, parsed.col), (Some(2), Some(3)));
    let parsed = parse_reference("a/-/x?é7:3").unwrap();
    assert_eq!((parsed.line, parsed.col), (Some(7), Some(3)));
}

#[test]
fn clean_remote_leaves_single_slashes() {
    assert_eq!(clean_remote("github.com//a///b"), "github.com/a/b");
    assert_eq!(clean_remote("github.com/a/b"), "github.com/a/b");
    assert_eq!(clean_remote("//"), "/");
    assert_eq!(clean_remote(""), "");
    assert_eq!(clean_remote("a/"), "a/");
}
