use git2::{BranchType, ErrorClass, ErrorCode, ObjectType, ReferenceType, Status};
use time::{OffsetDateTime, UtcOffset};
use wit::browse::{path_segments, sole_index_file, sole_tree_entry};
use wit::datetime::{commit_moment, split_offset, CommitMoment};
use wit::index::{list_index_records, IndexRecord};
use wit::error::{describe, failure_detail, GitError};
use wit::model::{
    GitBlob, GitBlobContent, GitBranch, GitBranchType, GitCommit, GitObjectType, GitReference,
    GitReferenceType, GitRemote, GitSignature, GitStatus, GitStatusFlag, GitTag, GitTree,
    GitUpstream,
};
use wit::oid::GitOid;
use wit::path::{
    chars_of, find_slash, has_dir_prefix, piece, same_chars, starts_with_dir,
    strip_trailing_slash,
};
use wit::text::{or_empty, MaybeLossyUtf8};

fn sample_id() -> GitOid {
    GitOid([
        0x00, 0x01, 0x0a, 0x0f, 0x10, 0x7f, 0x80, 0x9a, 0xab, 0xbc, 0xcd, 0xde, 0xef, 0xf0, 0xff,
        0x12, 0x34, 0x56, 0x78, 0x9a,
    ])
}

#[test]
fn strip_trailing_slash_takes_one_slash() {
    assert_eq!(strip_trailing_slash(""), "");
    assert_eq!(strip_trailing_slash("/"), "");
    assert_eq!(strip_trailing_slash("a"), "a");
    assert_eq!(strip_trailing_slash("a/"), "a");
    assert_eq!(strip_trailing_slash("a//"), "a/");
    assert_eq!(strip_trailing_slash("a/b/"), "a/b");
    assert_eq!(strip_trailing_slash("/a"), "/a");
    assert_eq!(strip_trailing_slash("d\u{e9}p\u{f4}t/"), "d\u{e9}p\u{f4}t");
}

#[test]
fn chars_and_pieces_go_by_characters() {
    assert_eq!(chars_of("a\u{e9}/\u{1f600}"), vec!['a', '\u{e9}', '/', '\u{1f600}']);
    assert_eq!(chars_of(""), Vec::<char>::new());
    assert_eq!(piece("a\u{e9}/\u{1f600}z", 1, 4), "\u{e9}/\u{1f600}");
    assert_eq!(piece("abc", 0, 0), "");
    assert_eq!(piece("abc", 0, 3), "abc");
    assert!(same_chars(&chars_of("ab"), &chars_of("ab")));
    assert!(!same_chars(&chars_of("ab"), &chars_of("ac")));
    assert!(!same_chars(&chars_of("ab"), &chars_of("abc")));
}

#[test]
fn find_slash_finds_the_next_slash() {
    let s = chars_of("ab/cd/e");
    assert_eq!(find_slash(&s, 0), 2);
    assert_eq!(find_slash(&s, 2), 2);
    assert_eq!(find_slash(&s, 3), 5);
    assert_eq!(find_slash(&s, 6), 7);
    assert_eq!(find_slash(&s, 7), 7);
    assert_eq!(find_slash(&chars_of(""), 0), 0);
}

#[test]
fn directory_prefixes() {
    assert!(starts_with_dir(&chars_of("a/b"), &chars_of("a")));
    assert!(starts_with_dir(&chars_of("a/"), &chars_of("a")));
    assert!(!starts_with_dir(&chars_of("a"), &chars_of("a")));
    assert!(!starts_with_dir(&chars_of("ab/c"), &chars_of("a")));
    assert!(starts_with_dir(&chars_of("/x"), &chars_of("")));
    assert!(!starts_with_dir(&chars_of("x"), &chars_of("")));
    assert!(has_dir_prefix(&chars_of("x"), &chars_of("")));
    assert!(has_dir_prefix(&chars_of(""), &chars_of("")));
    assert!(has_dir_prefix(&chars_of("a/b/c"), &chars_of("a/b")));
    assert!(!has_dir_prefix(&chars_of("a/bc"), &chars_of("a/b")));
}

#[test]
fn text_keeps_valid_utf8() {
    assert_eq!(MaybeLossyUtf8::from_bytes(b"plain").0, "plain");
    assert_eq!(MaybeLossyUtf8::from_bytes("d\u{e9}p\u{f4}t \u{1f600}".as_bytes()).0, "d\u{e9}p\u{f4}t \u{1f600}");
    assert_eq!(MaybeLossyUtf8::from_bytes(b"").0, "");
    let text: MaybeLossyUtf8 = (&b"into"[..]).into();
    assert_eq!(text.to_string(), "into");
    let text: MaybeLossyUtf8 = String::from("owned").into();
    assert_eq!(text.as_str(), "owned");
    assert_eq!(text.duplicate().0, "owned");
    assert_eq!(MaybeLossyUtf8::default().0, "");
}

#[test]
fn text_replaces_what_is_not_utf8() {
    assert_eq!(MaybeLossyUtf8::from_bytes(&[b'a', 0xff, b'b']).0, "a\u{fffd}b");
    assert_eq!(MaybeLossyUtf8::from_bytes(&[0xc3]).0, "\u{fffd}");
    assert_eq!(MaybeLossyUtf8::from_bytes(&[0xe2, 0x82, b'x']).0, "\u{fffd}x");
}

#[test]
fn id_hex_text() {
    assert_eq!(sample_id().to_hex(), "00010a0f107f809aabbccddeeff0ff123456789a");
    assert_eq!(GitOid::zero().to_hex(), "0000000000000000000000000000000000000000");
    assert_eq!(GitOid::zero(), GitOid([0u8; 20]));
    assert_eq!(GitOid([0xff; 20]).to_hex(), "ffffffffffffffffffffffffffffffffffffffff");
}

#[test]
fn id_hex_text_is_what_the_backend_prints() {
    let oid = git2::Oid::from_bytes(&sample_id().0).unwrap();
    assert_eq!(sample_id().to_hex(), oid.to_string());
}

#[test]
fn id_parse_reads_hex_of_either_case() {
    assert_eq!(GitOid::parse("00010a0f107f809aabbccddeeff0ff123456789a"), Ok(sample_id()));
    assert_eq!(GitOid::parse("00010A0F107F809AABBCCDDEEFF0FF123456789A"), Ok(sample_id()));
    assert_eq!(GitOid::parse(&sample_id().to_hex()), Ok(sample_id()));
}

#[test]
fn id_parse_fills_a_short_text_with_zeros() {
    let mut raw = [0u8; 20];
    raw[0] = 0xab;
    raw[1] = 0xc0;
    assert_eq!(GitOid::parse("abc"), Ok(GitOid(raw)));
    raw[1] = 0xcd;
    assert_eq!(GitOid::parse("abcd"), Ok(GitOid(raw)));
    assert_eq!(GitOid::parse("0"), Ok(GitOid::zero()));
}

#[test]
fn id_parse_refuses_other_text() {
    assert!(GitOid::parse("").is_err());
    assert!(GitOid::parse("xyz").is_err());
    assert!(GitOid::parse("00010a0f107f809aabbccddeeff0ff123456789a0").is_err());
    assert!(GitOid::parse("00010a0f107f809aabbccddeeff0ff123456789g").is_err());
    assert!(GitOid::parse("\u{e9}").is_err());
    for refused in ["", "xyz", "00010a0f107f809aabbccddeeff0ff123456789a0"] {
        let message = GitOid::parse(refused).unwrap_err();
        assert!(message.starts_with("Invalid GenericError: "), "{message}");
    }
    let message = GitOid::parse("xyz").unwrap_err();
    let backend = git2::Oid::from_str("xyz").unwrap_err();
    assert_eq!(
        message,
        format!("{:?} {:?}: {}", backend.class(), backend.code(), backend.message())
    );
}

#[test]
fn error_missing_object_keeps_the_message() {
    let e = GitError::classify(ErrorClass::Odb, ErrorCode::NotFound, "no such object", "Odb NotFound: no such object");
    assert!(matches!(&e, GitError::ObjectNotFound(m) if m == "no such object"));
    assert_eq!(e.to_string(), "ObjectNotFound: no such object");
}

#[test]
fn error_anything_else_is_unhandled() {
    for (class, code) in [
        (ErrorClass::Odb, ErrorCode::GenericError),
        (ErrorClass::Repository, ErrorCode::NotFound),
        (ErrorClass::Os, ErrorCode::NotFound),
        (ErrorClass::Reference, ErrorCode::UnbornBranch),
        (ErrorClass::None, ErrorCode::Locked),
    ] {
        let e = GitError::classify(class, code, "m", "the detail");
        assert!(matches!(&e, GitError::Unhandled(m) if m == "Unhandled the detail"));
        assert_eq!(e.to_string(), "Unhandled the detail");
    }
}

#[test]
fn error_missing_repository_carries_the_location() {
    for class in [ErrorClass::Os, ErrorClass::Repository] {
        let e = GitError::classify_on_open("/srv/none", class, ErrorCode::NotFound, "m", "d");
        assert!(matches!(&e, GitError::RepositoryNotFound(p) if p == "/srv/none"));
        assert_eq!(e.to_string(), "RepositoryNotFound: \"/srv/none\"");
    }
    let e = GitError::classify_on_open("/srv/x", ErrorClass::Odb, ErrorCode::NotFound, "gone", "d");
    assert!(matches!(&e, GitError::ObjectNotFound(m) if m == "gone"));
    let e = GitError::classify_on_open("/srv/x", ErrorClass::Os, ErrorCode::Locked, "m", "d");
    assert!(matches!(&e, GitError::Unhandled(m) if m == "Unhandled d"));
    let e = GitError::classify_on_open("a \"b\"", ErrorClass::Os, ErrorCode::NotFound, "m", "d");
    assert_eq!(e.to_string(), "RepositoryNotFound: \"a \\\"b\\\"\"");
}

#[test]
fn error_from_the_backend() {
    let missing = git2::Error::new(ErrorCode::NotFound, ErrorClass::Odb, "object not found - no match for id");
    let e = GitError::from_backend(&missing);
    assert!(matches!(&e, GitError::ObjectNotFound(m) if m == "object not found - no match for id"));
    let e: GitError = missing.into();
    assert!(matches!(&e, GitError::ObjectNotFound(_)));

    let other = git2::Error::new(ErrorCode::Locked, ErrorClass::Index, "index is locked");
    let e = GitError::from_backend(&other);
    assert!(matches!(&e, GitError::Unhandled(m) if m == "Unhandled Index Locked: index is locked"));

    let nowhere = git2::Error::new(ErrorCode::NotFound, ErrorClass::Repository, "could not find repository");
    let e = GitError::from_open("/nowhere", &nowhere);
    assert!(matches!(&e, GitError::RepositoryNotFound(p) if p == "/nowhere"));
    let e = GitError::from_backend(&nowhere);
    assert!(matches!(&e, GitError::Unhandled(m) if m == "Unhandled Repository NotFound: could not find repository"));
}

#[test]
fn offset_splits_into_hours_and_minutes() {
    assert_eq!(split_offset(0), Some((0, 0)));
    assert_eq!(split_offset(59), Some((0, 59)));
    assert_eq!(split_offset(60), Some((1, 0)));
    assert_eq!(split_offset(330), Some((5, 30)));
    assert_eq!(split_offset(-330), Some((-5, -30)));
    assert_eq!(split_offset(-1), Some((0, -1)));
    assert_eq!(split_offset(7679), Some((127, 59)));
    assert_eq!(split_offset(7680), None);
    assert_eq!(split_offset(-7739), Some((-128, -59)));
    assert_eq!(split_offset(-7740), None);
    assert_eq!(split_offset(i32::MAX), None);
    assert_eq!(split_offset(i32::MIN), None);
}

/// The moment as the time crate holds it.
fn shown(moment: CommitMoment) -> OffsetDateTime {
    OffsetDateTime::from_unix_timestamp(moment.seconds)
        .unwrap_or_else(|e| panic!("the seconds should be held: {e:?}"))
        .to_offset(
            UtcOffset::from_whole_seconds(moment.offset_seconds)
                .unwrap_or_else(|e| panic!("the offset should be had: {e:?}")),
        )
}

#[test]
fn commit_moment_is_the_instant_at_the_offset() {
    let moment = commit_moment(1_546_300_800, 330);
    assert_eq!(moment, CommitMoment { seconds: 1_546_300_800, offset_seconds: 19_800 });
    assert_eq!(shown(moment).unix_timestamp(), 1_546_300_800);
    assert_eq!(shown(moment).offset(), UtcOffset::from_hms(5, 30, 0).unwrap());
    assert_eq!((shown(moment).hour(), shown(moment).minute()), (5, 30));

    let moment = commit_moment(1_546_300_800, -480);
    assert_eq!(moment, CommitMoment { seconds: 1_546_300_800, offset_seconds: -28_800 });
    assert_eq!(shown(moment).unix_timestamp(), 1_546_300_800);
    assert_eq!(shown(moment).offset(), UtcOffset::from_hms(-8, 0, 0).unwrap());
    assert_eq!((shown(moment).year(), shown(moment).hour()), (2018, 16));

    assert_eq!(commit_moment(0, 0), CommitMoment { seconds: 0, offset_seconds: 0 });
    assert_eq!(shown(commit_moment(0, 0)), OffsetDateTime::UNIX_EPOCH);
    assert_eq!(commit_moment(-1, -1), CommitMoment { seconds: -1, offset_seconds: -60 });
}

#[test]
fn commit_moment_falls_back() {
    let moment = commit_moment(1_546_300_800, 26 * 60);
    assert_eq!(moment, CommitMoment { seconds: 1_546_300_800, offset_seconds: 0 });
    assert_eq!(shown(moment).offset(), UtcOffset::UTC);

    let moment = commit_moment(1_546_300_800, 25 * 60 + 59);
    assert_eq!(moment, CommitMoment { seconds: 1_546_300_800, offset_seconds: 93_540 });

    let moment = commit_moment(1_546_300_800, 10_000);
    assert_eq!(moment, CommitMoment { seconds: 1_546_300_800, offset_seconds: 0 });

    let moment = commit_moment(i64::MAX, 60);
    assert_eq!(moment, CommitMoment { seconds: 0, offset_seconds: 3_600 });
    assert_eq!(shown(moment).unix_timestamp(), 0);
    assert_eq!(shown(moment).offset(), UtcOffset::from_hms(1, 0, 0).unwrap());

    let moment = commit_moment(i64::MIN, 0);
    assert_eq!(moment, CommitMoment { seconds: 0, offset_seconds: 0 });

    let moment = commit_moment(253_402_300_799, 60);
    assert_eq!(moment, CommitMoment { seconds: 253_402_300_799, offset_seconds: 0 });
    assert_eq!(shown(moment).offset(), UtcOffset::UTC);

    let moment = commit_moment(253_402_300_799, -60);
    assert_eq!(moment, CommitMoment { seconds: 253_402_300_799, offset_seconds: -3_600 });
}

#[test]
fn commit_moment_at_the_ends_of_the_range() {
    let first: i64 = -377_705_116_800;
    let last: i64 = 253_402_300_799;
    assert_eq!(commit_moment(first, 0), CommitMoment { seconds: first, offset_seconds: 0 });
    assert_eq!(shown(commit_moment(first, 0)).year(), -9999);
    assert_eq!(commit_moment(first - 1, 0), CommitMoment { seconds: 0, offset_seconds: 0 });
    assert_eq!(commit_moment(first, 60), CommitMoment { seconds: first, offset_seconds: 3_600 });
    assert_eq!(commit_moment(first, -1), CommitMoment { seconds: first, offset_seconds: 0 });
    assert_eq!(commit_moment(first + 60, -1), CommitMoment { seconds: first + 60, offset_seconds: -60 });
    assert_eq!(commit_moment(first + 59, -1), CommitMoment { seconds: first + 59, offset_seconds: 0 });

    assert_eq!(commit_moment(last, 0), CommitMoment { seconds: last, offset_seconds: 0 });
    assert_eq!(shown(commit_moment(last, 0)).year(), 9999);
    assert_eq!(commit_moment(last + 1, 0), CommitMoment { seconds: 0, offset_seconds: 0 });
    assert_eq!(commit_moment(last + 1, 60), CommitMoment { seconds: 0, offset_seconds: 3_600 });
    assert_eq!(commit_moment(last, 1), CommitMoment { seconds: last, offset_seconds: 0 });
    assert_eq!(commit_moment(last - 60, 1), CommitMoment { seconds: last - 60, offset_seconds: 60 });
    assert_eq!(commit_moment(last - 59, 1), CommitMoment { seconds: last - 59, offset_seconds: 0 });
    assert_eq!(commit_moment(last, -1559), CommitMoment { seconds: last, offset_seconds: -93_540 });
    assert_eq!(commit_moment(0, 1559), CommitMoment { seconds: 0, offset_seconds: 93_540 });
    assert_eq!(commit_moment(0, 1560), CommitMoment { seconds: 0, offset_seconds: 0 });
    assert_eq!(commit_moment(0, -1560), CommitMoment { seconds: 0, offset_seconds: 0 });
}

#[test]
fn blob_content_follows_the_judgement_of_the_store() {
    let blob = GitBlob::new(sample_id(), "0001".to_string(), 3, false, vec![b'a', 0xff, b'b']);
    assert!(matches!(&blob.content, GitBlobContent::Text(t) if t.0 == "a\u{fffd}b"));
    assert!(!blob.is_binary);
    assert_eq!(blob.id, sample_id());
    assert_eq!(blob.short_id, "0001");
    assert_eq!(blob.size, 3);

    let blob = GitBlob::new(sample_id(), String::new(), 3, true, vec![b'a', 0, b'b']);
    assert!(matches!(&blob.content, GitBlobContent::Binary(b) if b == &vec![b'a', 0, b'b']));
    assert!(blob.is_binary);

    let content = GitBlobContent::classify(false, b"text".to_vec());
    assert!(matches!(content, GitBlobContent::Text(t) if t.0 == "text"));
}

#[test]
fn kinds_keep_their_names() {
    assert_eq!(GitObjectType::from(ObjectType::Any), GitObjectType::Any);
    assert_eq!(GitObjectType::from(ObjectType::Blob), GitObjectType::Blob);
    assert_eq!(GitObjectType::from(ObjectType::Commit), GitObjectType::Commit);
    assert_eq!(GitObjectType::from(ObjectType::Tag), GitObjectType::Tag);
    assert_eq!(GitObjectType::from(ObjectType::Tree), GitObjectType::Tree);
    assert_eq!(GitBranchType::from(BranchType::Local), GitBranchType::Local);
    assert_eq!(GitBranchType::from(BranchType::Remote), GitBranchType::Remote);
    assert_eq!(GitReferenceType::from(ReferenceType::Direct), GitReferenceType::Direct);
    assert_eq!(GitReferenceType::from(ReferenceType::Symbolic), GitReferenceType::Symbolic);
}

#[test]
fn signature_from_bytes() {
    let s = GitSignature::from_bytes(b"wit@example.com", &[b'w', 0xff]);
    assert_eq!(s.email.0, "wit@example.com");
    assert_eq!(s.name.0, "w\u{fffd}");
}

#[test]
fn status_flag_names() {
    let flag = GitStatusFlag((Status::WT_NEW | Status::INDEX_MODIFIED).bits());
    assert_eq!(flag.names(), vec!["INDEX_MODIFIED", "WT_NEW"]);
    assert!(GitStatusFlag(Status::CURRENT.bits()).names().is_empty());
    assert_eq!(GitStatusFlag(Status::IGNORED.bits()).names(), vec!["IGNORED"]);
    assert_eq!(GitStatusFlag(128).names(), vec!["WT_NEW"]);
}

#[test]
fn failures_are_answered_by_kind() {
    let e = GitError::ObjectNotFound(String::from("no match for id"));
    assert_eq!(e.answer(), (404, String::from("Git object not found: no match for id")));
    let e = GitError::RepositoryNotFound(String::from("/srv/git"));
    assert_eq!(e.answer(), (404, String::from("Git repository \"/srv/git\" not found")));
    let e = GitError::Unhandled(String::from("Unhandled Os GenericError: disk"));
    assert_eq!(e.answer(), (500, String::from("Unhandled Os GenericError: disk")));
}

#[test]
fn segments_for_display() {
    assert_eq!(path_segments(""), Vec::<String>::new());
    assert_eq!(path_segments("a"), vec!["a"]);
    assert_eq!(path_segments("a/b/c"), vec!["a", "b", "c"]);
    assert_eq!(path_segments("a/b/"), vec!["a", "b", ""]);
    assert_eq!(path_segments("/"), vec!["", ""]);
    assert_eq!(path_segments("d\u{e9}/\u{1f600}"), vec!["d\u{e9}", "\u{1f600}"]);
}

#[test]
fn a_listing_of_one_file_at_the_path_is_that_file() {
    let records = vec![
        IndexRecord { path: MaybeLossyUtf8(String::from("a/x")), id: sample_id(), file_size: 1, mode: 0, uid: 0, gid: 0, ctime: 0, mtime: 0 },
        IndexRecord { path: MaybeLossyUtf8(String::from("b/only")), id: GitOid::zero(), file_size: 1, mode: 0, uid: 0, gid: 0, ctime: 0, mtime: 0 },
    ];
    assert_eq!(sole_index_file(&list_index_records(&records, "a/x"), "a/x"), Some(sample_id()));
    assert_eq!(sole_index_file(&list_index_records(&records, "a/x/"), "a/x/"), None);
    assert_eq!(sole_index_file(&list_index_records(&records, "b"), "b"), None);
    assert_eq!(sole_index_file(&list_index_records(&records, ""), ""), None);
    assert_eq!(sole_index_file(&list_index_records(&records, "none"), "none"), None);
    assert_eq!(sole_index_file(&list_index_records(&records, "a"), "a/x"), Some(sample_id()));

    let line = |root: &str, name: &str| GitTree {
        filemode: 0o100644,
        id: sample_id(),
        kind: Some(GitObjectType::Blob),
        name: MaybeLossyUtf8(String::from(name)),
        root: String::from(root),
        short_id: String::new(),
    };
    assert_eq!(sole_tree_entry(&vec![line("a/", "x")], "a/x"), Some(sample_id()));
    assert_eq!(sole_tree_entry(&vec![line("a/", "x")], "a"), None);
    assert_eq!(sole_tree_entry(&vec![line("", "x")], "x"), Some(sample_id()));
    assert_eq!(sole_tree_entry(&vec![line("a/", "x"), line("a/", "y")], "a/x"), None);
    assert_eq!(sole_tree_entry(&Vec::new(), ""), None);
}

#[test]
fn failure_rendering() {
    assert_eq!(failure_detail("Odb", "NotFound", "no match"), "Odb NotFound: no match");
    assert_eq!(failure_detail("", "", ""), " : ");
    let e = git2::Error::new(ErrorCode::UnbornBranch, ErrorClass::Reference, "reference 'refs/heads/main' not found");
    assert_eq!(describe(&e), "Reference UnbornBranch: reference 'refs/heads/main' not found");
    let e = git2::Error::from_str("plain");
    assert_eq!(describe(&e), "None GenericError: plain");
}

#[test]
fn what_is_missing_counts_as_zero_or_empty() {
    assert_eq!(GitOid::or_zero(None), GitOid::zero());
    assert_eq!(GitOid::or_zero(Some(sample_id())), sample_id());
    assert_eq!(or_empty(None), "");
    assert_eq!(or_empty(Some(String::from("00010a0"))), "00010a0");
    assert_eq!(MaybeLossyUtf8::from_bytes_or_empty(None).0, "");
    assert_eq!(MaybeLossyUtf8::from_bytes_or_empty(Some(b"main".to_vec())).0, "main");
    assert_eq!(MaybeLossyUtf8::from_bytes_or_empty(Some(vec![b'm', 0xff])).0, "m\u{fffd}");
}

#[test]
fn lines_from_their_parts() {
    let status = GitStatus::from_parts(b"README.md", 128);
    assert_eq!(status.path.0, "README.md");
    assert_eq!(status.status, GitStatusFlag(128));
    assert_eq!(status.status_bits, 128);
    assert_eq!(status.status.names(), vec!["WT_NEW"]);
    assert_eq!(GitStatus::from_parts(&[0xff], 0).path.0, "\u{fffd}");

    let remote = GitRemote::from_parts(
        MaybeLossyUtf8(String::from("example")),
        Some(b"https://example.com/git/wit.git".to_vec()),
    );
    assert_eq!(remote.name.0, "example");
    assert_eq!(remote.url.0, "https://example.com/git/wit.git");
    assert_eq!(GitRemote::from_parts(MaybeLossyUtf8(String::from("gone")), None).url.0, "");

    let reference = GitReference::from_parts(
        Some(ReferenceType::Direct),
        b"refs/heads/main",
        b"main",
        sample_id(),
        String::from("00010a0"),
    );
    assert_eq!(reference.kind, Some(GitReferenceType::Direct));
    assert_eq!(reference.name.0, "refs/heads/main");
    assert_eq!(reference.shorthand.0, "main");
    assert_eq!(reference.target, sample_id());
    assert_eq!(reference.target_short, "00010a0");
    let symbolic = GitReference::from_parts(Some(ReferenceType::Symbolic), b"HEAD", b"HEAD", GitOid::zero(), String::new());
    assert_eq!(symbolic.kind, Some(GitReferenceType::Symbolic));
    assert_eq!(GitReference::from_parts(None, b"x", b"x", GitOid::zero(), String::new()).kind, None);

    let upstream = GitUpstream::from_parts(
        b"refs/remotes/origin/main",
        Some(b"origin/main".to_vec()),
        sample_id(),
        String::from("00010a0f"),
    );
    assert_eq!(upstream.name.0, "refs/remotes/origin/main");
    assert_eq!(upstream.shorthand.0, "origin/main");
    assert_eq!(GitUpstream::from_parts(b"r", None, GitOid::zero(), String::new()).shorthand.0, "");

    let branch = GitBranch::from_parts(
        BranchType::Remote,
        b"refs/remotes/origin/main",
        None,
        sample_id(),
        String::from("00010a0"),
        Some(upstream),
    );
    assert_eq!(branch.kind, GitBranchType::Remote);
    assert_eq!(branch.name.0, "refs/remotes/origin/main");
    assert_eq!(branch.shorthand.0, "");
    assert_eq!(branch.target, sample_id());
    assert_eq!(branch.target_short, "00010a0");
    assert_eq!(branch.upstream.map(|u| u.shorthand.0), Some(String::from("origin/main")));
    let local = GitBranch::from_parts(BranchType::Local, b"refs/heads/main", Some(b"main".to_vec()), GitOid::zero(), String::new(), None);
    assert_eq!(local.kind, GitBranchType::Local);
    assert_eq!(local.shorthand.0, "main");
    assert!(local.upstream.is_none());

    let commit = GitCommit::from_parts(
        GitSignature::from_bytes(b"a@example.com", b"a"),
        GitSignature::from_bytes(b"c@example.com", b"c"),
        sample_id(),
        String::from("00010a0"),
        b"Initial commit",
        CommitMoment { seconds: 7, offset_seconds: 60 },
    );
    assert_eq!(commit.author.name.0, "a");
    assert_eq!(commit.committer.email.0, "c@example.com");
    assert_eq!(commit.id, sample_id());
    assert_eq!(commit.short_id, "00010a0");
    assert_eq!(commit.message.0, "Initial commit");
    assert_eq!(commit.time, CommitMoment { seconds: 7, offset_seconds: 60 });

    let tag = GitTag::from_parts(
        MaybeLossyUtf8(String::from("refs/tags/v0.0.0")),
        b"v0.0.0",
        sample_id(),
        String::from("00010a0"),
    );
    assert_eq!(tag.name.0, "refs/tags/v0.0.0");
    assert_eq!(tag.shorthand.0, "v0.0.0");
    assert_eq!(tag.target, sample_id());
    assert_eq!(tag.target_short, "00010a0");
}
