use lunara::git::{
    branch_from_head, parse_ahead_behind, parse_porcelain_v1_b, BranchRef, StatusCounts,
    StatusSummary, Upstream,
};

#[test]
fn branch_ref_display() {
    assert_eq!(BranchRef::Named("main".into()).to_string(), "main");
    assert!(BranchRef::Detached("abc123".into()).to_string().starts_with("DETACHED@"));
}

#[test]
fn parse_porcelain_header_and_counts() {
    let sample = "## main...origin/main [ahead 2, behind 1]\n M src/lib.rs\nM  src/main.rs\n?? new.txt\n";
    let s = parse_porcelain_v1_b(sample);
    assert_eq!(s.upstream.name.as_deref(), Some("origin/main"));
    assert_eq!(s.upstream.ahead, 2);
    assert_eq!(s.upstream.behind, 1);
    assert_eq!(s.counts.untracked, 1);
    // One staged (x!=space), one unstaged (y!=space)
    assert_eq!(s.counts.staged, 1);
    assert_eq!(s.counts.unstaged, 1);
}

#[test]
fn detached_display_has_commit() {
    assert_eq!(BranchRef::Detached("abc1234".into()).to_string(), "DETACHED@abc1234");
}

#[test]
fn no_header_means_no_upstream() {
    let s = parse_porcelain_v1_b(" M a\n?? b\n");
    assert_eq!(s.upstream, Upstream { name: None, ahead: 0, behind: 0 });
    assert_eq!(s.counts, StatusCounts { staged: 0, unstaged: 1, untracked: 1 });
}

#[test]
fn header_and_three_lines() {
    let s = parse_porcelain_v1_b("## main...origin/main [ahead 2, behind 1]\n M a\nM  b\n?? c");
    assert_eq!(
        s,
        StatusSummary {
            upstream: Upstream { name: Some("origin/main".to_string()), ahead: 2, behind: 1 },
            counts: StatusCounts { staged: 1, unstaged: 1, untracked: 1 },
        }
    );
}

#[test]
fn both_columns_count_twice() {
    let s = parse_porcelain_v1_b("MM both\nAD other\n");
    assert_eq!(s.counts, StatusCounts { staged: 2, unstaged: 2, untracked: 0 });
}

#[test]
fn short_lines_are_ignored() {
    let s = parse_porcelain_v1_b("M\nMM\n\n?? x\n");
    assert_eq!(s.counts, StatusCounts { staged: 0, unstaged: 0, untracked: 1 });
}

#[test]
fn empty_text_gives_default() {
    assert_eq!(parse_porcelain_v1_b(""), StatusSummary::default());
}

#[test]
fn header_without_bracket_keeps_zero_counts() {
    let s = parse_porcelain_v1_b("## main...origin/main\n");
    assert_eq!(s.upstream, Upstream { name: Some("origin/main".to_string()), ahead: 0, behind: 0 });
}

#[test]
fn header_without_upstream() {
    let s = parse_porcelain_v1_b("## HEAD (no branch)\n");
    assert_eq!(s.upstream, Upstream { name: None, ahead: 0, behind: 0 });
    let s = parse_porcelain_v1_b("## main [gone]\n");
    assert_eq!(s.upstream, Upstream { name: None, ahead: 0, behind: 0 });
}

#[test]
fn header_behind_only_and_bad_number() {
    let s = parse_porcelain_v1_b("## dev...up/dev [behind 7]\n");
    assert_eq!(s.upstream, Upstream { name: Some("up/dev".to_string()), ahead: 0, behind: 7 });
    let s = parse_porcelain_v1_b("## dev...up/dev [ahead x, behind 99999999999]\n");
    assert_eq!(s.upstream, Upstream { name: Some("up/dev".to_string()), ahead: 0, behind: 0 });
}

#[test]
fn crlf_lines_are_split() {
    let s = parse_porcelain_v1_b("## a...b [ahead 3]\r\n M x\r\n");
    assert_eq!(s.upstream, Upstream { name: Some("b".to_string()), ahead: 3, behind: 0 });
    assert_eq!(s.counts, StatusCounts { staged: 0, unstaged: 1, untracked: 0 });
}

#[test]
fn line_order_does_not_change_counts() {
    let a = parse_porcelain_v1_b("## m...o/m\n M a\nM  b\n?? c\nMM d\n");
    let b = parse_porcelain_v1_b("?? c\nMM d\n## m...o/m\nM  b\n M a\n");
    assert_eq!(a.counts, b.counts);
    assert_eq!(a.counts, StatusCounts { staged: 2, unstaged: 2, untracked: 1 });
}

#[test]
fn head_symbolic_ref_is_named() {
    assert_eq!(branch_from_head("ref: refs/heads/main"), BranchRef::Named("main".to_string()));
    assert_eq!(branch_from_head("ref: refs/heads/feature/x\n"), BranchRef::Named("feature/x".to_string()));
    assert_eq!(branch_from_head("ref: refs/tags/v1"), BranchRef::Named("refs/tags/v1".to_string()));
}

#[test]
fn head_commit_is_detached() {
    let id = "0123456789abcdef0123456789abcdef01234567";
    assert_eq!(branch_from_head(id), BranchRef::Detached("0123456".to_string()));
    assert_eq!(branch_from_head("abc\n"), BranchRef::Detached("abc".to_string()));
}

#[test]
fn ahead_behind_output() {
    assert_eq!(parse_ahead_behind("3\t5\n"), (3, 5));
    assert_eq!(parse_ahead_behind("  4 1 "), (4, 1));
    assert_eq!(parse_ahead_behind("x\t2"), (0, 2));
    assert_eq!(parse_ahead_behind("6"), (6, 0));
    assert_eq!(parse_ahead_behind(""), (0, 0));
    assert_eq!(parse_ahead_behind("4294967296\t+8"), (0, 8));
}

#[test]
fn precise_counts_replace_header_counts() {
    let mut s = parse_porcelain_v1_b("## a...o/a [ahead 1]\n");
    s.apply_ahead_behind(4, 2);
    assert_eq!(s.upstream, Upstream { name: Some("o/a".to_string()), ahead: 4, behind: 2 });
    let mut t = parse_porcelain_v1_b("## a\n");
    t.apply_ahead_behind(4, 2);
    assert_eq!(t.upstream, Upstream { name: None, ahead: 0, behind: 0 });
}
