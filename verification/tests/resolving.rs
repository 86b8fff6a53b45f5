use sg::{
    commit_from_reply, get_commit_hash, get_remote_file_contents, is_full_commit_id,
    lines_from_answer, lines_from_reply, lines_of, plan_commit, resolve_answer, uri_from_link,
    CommitData, CommitEntry, CommitPlan, CommitReply, CommitRepository, FileCommit, FileData,
    FileEntry, FileReply, FileRepository, LinkError, Missing, RemoteFile,
};

const FULL: &str = "0123456789abcdef0123456789abcdef01234567";

fn commit_reply(oid: &str) -> CommitReply {
    CommitReply {
        data: Some(CommitData {
            repository: Some(CommitRepository { commit: Some(CommitEntry { oid: oid.to_string() }) }),
        }),
    }
}

fn file_reply(content: &str) -> FileReply {
    FileReply {
        data: Some(FileData {
            repository: Some(FileRepository {
                commit: Some(FileCommit { file: Some(FileEntry { content: content.to_string() }) }),
            }),
        }),
    }
}

fn resolved_file() -> RemoteFile {
    RemoteFile {
        remote: "github.com/neovim/neovim".to_string(),
        commit: FULL.to_string(),
        path: "src/nvim/autocmd.c".to_string(),
        line: Some(3),
        col: Some(9),
    }
}

#[test]
fn full_commit_needs_forty_hex_digits() {
    assert!(is_full_commit_id(FULL));
    assert!(is_full_commit_id("ABCDEF0123456789abcdef0123456789ABCDEF01"));
    assert!(!is_full_commit_id("HEAD"));
    assert!(!is_full_commit_id("main"));
    assert!(!is_full_commit_id(""));
    assert!(!is_full_commit_id(&FULL[..39]));
    assert!(!is_full_commit_id(&format!("{}0", FULL)));
    assert!(!is_full_commit_id("0123456789abcdef0123456789abcdef0123456g"));
    assert!(!is_full_commit_id("feature/a-branch-name-of-forty-chars-xyz"));
    assert_eq!("feature/a-branch-name-of-forty-chars-xyz".len(), 40);
    assert!(!is_full_commit_id("0123456789abcdef0123456789abcdef0123456é"));
}

#[test]
fn full_commit_resolves_without_lookup() {
    let commit = get_commit_hash("github.com/a/b".to_string(), FULL.to_string(), |_r: String, _v: String| {
        panic!("no lookup for a full commit")
    })
    .unwrap();
    assert_eq!(commit, FULL);
}

#[test]
fn link_with_full_commit_resolves_without_lookup() {
    let link = format!("sg://gh/a/b@{}/-/blob/x", FULL);
    let file = uri_from_link(&link, |remote: String, revision: String| {
        get_commit_hash(remote, revision, |_r: String, _v: String| panic!("no lookup for a full commit"))
    })
    .unwrap();
    assert_eq!(file.commit, FULL);
    assert_eq!(file.remote, "github.com/a/b");
}

#[test]
fn plan_says_when_to_look_up() {
    match plan_commit("r".to_string(), FULL.to_string()) {
        CommitPlan::Known(commit) => assert_eq!(commit, FULL),
        CommitPlan::Lookup { .. } => panic!("a full commit is known"),
    }
    match plan_commit("r".to_string(), "main".to_string()) {
        CommitPlan::Lookup { remote, revision } => {
            assert_eq!(remote, "r");
            assert_eq!(revision, "main");
        }
        CommitPlan::Known(_) => panic!("a branch must be looked up"),
    }
}

#[test]
fn symbolic_revision_is_looked_up_once() {
    let calls = std::cell::Cell::new(0);
    let commit = get_commit_hash("github.com/a/b".to_string(), "main".to_string(), |remote: String, revision: String| {
        calls.set(calls.get() + 1);
        assert_eq!(remote, "github.com/a/b");
        assert_eq!(revision, "main");
        Ok(commit_reply(FULL))
    })
    .unwrap();
    assert_eq!(commit, FULL);
    assert_eq!(calls.get(), 1);
}

#[test]
fn reply_without_parts_says_what_is_missing() {
    assert_eq!(commit_from_reply(CommitReply { data: None }).unwrap_err(), LinkError::NoData);
    assert_eq!(
        commit_from_reply(CommitReply { data: Some(CommitData { repository: None }) }).unwrap_err(),
        LinkError::NotFound(Missing::Repository)
    );
    assert_eq!(
        commit_from_reply(CommitReply {
            data: Some(CommitData { repository: Some(CommitRepository { commit: None }) })
        })
        .unwrap_err(),
        LinkError::NotFound(Missing::Revision)
    );
    assert_eq!(commit_from_reply(commit_reply("abc")).unwrap(), "abc");
}

#[test]
fn failed_lookup_stays_what_it_was() {
    assert_eq!(resolve_answer(Err(LinkError::LookupTimeout)).unwrap_err(), LinkError::LookupTimeout);
    assert_eq!(resolve_answer(Err(LinkError::Transport)).unwrap_err(), LinkError::Transport);
    assert_eq!(resolve_answer(Ok(commit_reply(FULL))).unwrap(), FULL);
    let err = get_commit_hash("r".to_string(), "HEAD".to_string(), |_r: String, _v: String| {
        Err(LinkError::Transport)
    })
    .unwrap_err();
    assert_eq!(err, LinkError::Transport);
    let err = get_commit_hash("r".to_string(), "HEAD".to_string(), |_r: String, _v: String| {
        Ok(CommitReply { data: None })
    })
    .unwrap_err();
    assert_eq!(err, LinkError::NoData);
}

#[test]
fn only_timeouts_and_transport_failures_are_retryable() {
    assert!(LinkError::LookupTimeout.is_retryable());
    assert!(LinkError::Transport.is_retryable());
    assert!(!LinkError::MalformedReference.is_retryable());
    assert!(!LinkError::TooManyQueryMarkers.is_retryable());
    assert!(!LinkError::NoData.is_retryable());
    assert!(!LinkError::NotFound(Missing::Repository).is_retryable());
    assert!(!LinkError::NotFound(Missing::Revision).is_retryable());
    assert!(!LinkError::NotFound(Missing::File).is_retryable());
}

#[test]
fn errors_have_their_messages() {
    assert_eq!(LinkError::MalformedReference.message(), "Expected url to be split by /-/");
    assert_eq!(
        LinkError::TooManyQueryMarkers.message(),
        "Too many question marks. Please don't do that"
    );
    assert_eq!(LinkError::NoData.message(), "No data");
    assert_eq!(LinkError::NotFound(Missing::Repository).message(), "No matching repository found");
    assert_eq!(LinkError::NotFound(Missing::Revision).message(), "No matching commit found");
    assert_eq!(LinkError::NotFound(Missing::File).message(), "No matching File");
    assert_eq!(LinkError::LookupTimeout.message(), "Lookup timed out");
    assert_eq!(LinkError::Transport.message(), "Request failed");
}

#[test]
fn lines_are_what_stands_between_line_feeds() {
    assert_eq!(lines_of("a\nb"), vec!["a", "b"]);
    assert_eq!(lines_of("a\nb\n"), vec!["a", "b", ""]);
    assert_eq!(lines_of(""), vec![""]);
    assert_eq!(lines_of("\n"), vec!["", ""]);
    assert_eq!(lines_of("\n\nx"), vec!["", "", "x"]);
    assert_eq!(lines_of("one line"), vec!["one line"]);
    assert_eq!(lines_of("a\r\nb"), vec!["a\r", "b"]);
    assert_eq!(lines_of("é\nü"), vec!["é", "ü"]);
}

#[test]
fn file_reply_without_parts_says_what_is_missing() {
    assert_eq!(lines_from_reply(FileReply { data: None }).unwrap_err(), LinkError::NoData);
    assert_eq!(
        lines_from_reply(FileReply { data: Some(FileData { repository: None }) }).unwrap_err(),
        LinkError::NotFound(Missing::Repository)
    );
    assert_eq!(
        lines_from_reply(FileReply {
            data: Some(FileData { repository: Some(FileRepository { commit: None }) })
        })
        .unwrap_err(),
        LinkError::NotFound(Missing::Revision)
    );
    assert_eq!(
        lines_from_reply(FileReply {
            data: Some(FileData {
                repository: Some(FileRepository { commit: Some(FileCommit { file: None }) })
            })
        })
        .unwrap_err(),
        LinkError::NotFound(Missing::File)
    );
    assert_eq!(lines_from_reply(file_reply("x\ny")).unwrap(), vec!["x", "y"]);
    assert_eq!(lines_from_answer(Err(LinkError::LookupTimeout)).unwrap_err(), LinkError::LookupTimeout);
    assert_eq!(lines_from_answer(Ok(file_reply("x"))).unwrap(), vec!["x"]);
}

#[test]
fn file_contents_are_fetched_by_remote_commit_and_path() {
    let lines = get_remote_file_contents("r", "c", "p", |remote: String, commit: String, path: String| {
        assert_eq!((remote.as_str(), commit.as_str(), path.as_str()), ("r", "c", "p"));
        Ok(file_reply("first\nsecond"))
    })
    .unwrap();
    assert_eq!(lines, vec!["first", "second"]);
    let file = resolved_file();
    let lines = file
        .read(|remote: String, commit: String, path: String| {
            assert_eq!(remote, "github.com/neovim/neovim");
            assert_eq!(commit, FULL);
            assert_eq!(path, "src/nvim/autocmd.c");
            Ok(file_reply("a\n"))
        })
        .unwrap();
    assert_eq!(lines, vec!["a", ""]);
    let err = file
        .read(|_r: String, _c: String, _p: String| Err(LinkError::Transport))
        .unwrap_err();
    assert_eq!(err, LinkError::Transport);
}

#[test]
fn bufname_is_short_and_aliased() {
    assert_eq!(resolved_file().bufname(), "sg://gh/neovim/neovim01234/-/src/nvim/autocmd.c");
    let mut file = resolved_file();
    file.remote = "github.com".to_string();
    assert_eq!(file.bufname(), "sg://gh01234/-/src/nvim/autocmd.c");
    file.remote = "github.community/a".to_string();
    assert_eq!(file.bufname(), "sg://github.community/a01234/-/src/nvim/autocmd.c");
    file.remote = "gitlab.com/a/b".to_string();
    file.path = String::new();
    assert_eq!(file.bufname(), "sg://gitlab.com/a/b01234/-/");
}

#[test]
fn bufname_takes_a_short_commit_whole() {
    let mut file = resolved_file();
    file.commit = "HEAD".to_string();
    assert_eq!(file.bufname(), "sg://gh/neovim/neovimHEAD/-/src/nvim/autocmd.c");
    file.commit = "abcde".to_string();
    assert_eq!(file.shortened_commit(), "abcde");
    file.commit = "äbcdéf".to_string();
    assert_eq!(file.shortened_commit(), "äbcdé");
    assert_eq!(file.shortened_remote(), "gh/neovim/neovim");
}

#[test]
fn same_commit_prefix_gives_same_bufname() {
    let a = resolved_file();
    let mut b = resolved_file();
    b.commit = "01234fffffffffffffffffffffffffffffffffff".to_string();
    assert_ne!(a.commit, b.commit);
    assert_eq!(a.bufname(), b.bufname());
}

#[test]
fn sourcegraph_url_follows_the_template() {
    assert_eq!(
        resolved_file().sourcegraph_url(),
        format!("https://sourcegraph.com/github.com/neovim/neovim@{}/-/blob/src/nvim/autocmd.c", FULL)
    );
    let root = RemoteFile {
        remote: "r".to_string(),
        commit: "c".to_string(),
        path: String::new(),
        line: None,
        col: None,
    };
    assert_eq!(root.sourcegraph_url(), "https://sourcegraph.com/r@c/-/blob/");
}

#[test]
fn sourcegraph_url_round_trips() {
    let file = resolved_file();
    let back = uri_from_link(&file.sourcegraph_url(), |remote: String, revision: String| {
        get_commit_hash(remote, revision, |_r: String, _v: String| panic!("no lookup for a full commit"))
    })
    .unwrap();
    assert_eq!(back.remote, file.remote);
    assert_eq!(back.commit, file.commit);
    assert_eq!(back.path, file.path);
    assert_eq!(back.line, None);
    assert_eq!(back.col, None);
}

#[test]
fn directory_target_holds_no_position() {
    match sg::ResolvedTarget::new(resolved_file(), true) {
        sg::ResolvedTarget::Directory { remote, commit, path } => {
            assert_eq!(remote, "github.com/neovim/neovim");
            assert_eq!(commit, FULL);
            assert_eq!(path, "src/nvim/autocmd.c");
        }
        sg::ResolvedTarget::File(_) => panic!("a directory was asked for"),
    }
    assert!(sg::ResolvedTarget::new(resolved_file(), true).file().is_none());
}

#[test]
fn file_target_keeps_the_reference() {
    let file = sg::ResolvedTarget::new(resolved_file(), false).file().unwrap();
    assert_eq!(file.remote, "github.com/neovim/neovim");
    assert_eq!(file.commit, FULL);
    assert_eq!(file.path, "src/nvim/autocmd.c");
    assert_eq!((file.line, file.col), (Some(3), Some(9)));
}
