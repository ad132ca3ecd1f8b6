use quota_control::record::QuotaRecord;
use quota_control::warning::{check_user_quotas, Dimension, Severity, Warning};

fn record(block: (u64, u64, u64), inode: (u64, u64, u64)) -> QuotaRecord {
    QuotaRecord {
        filesystem: "/home".to_string(),
        block_usage: block.0,
        block_soft: block.1,
        block_hard: block.2,
        block_grace: "6days".to_string(),
        inode_usage: inode.0,
        inode_soft: inode.1,
        inode_hard: inode.2,
        inode_grace: "none".to_string(),
    }
}

fn kinds(list: &[Warning]) -> Vec<(Dimension, Severity)> {
    list.iter().map(|w| (w.dimension, w.severity)).collect()
}

#[test]
fn usage_within_limits_gives_no_warning() {
    let r = record((10, 20, 30), (1, 2, 3));
    assert!(check_user_quotas(&r, "staff").is_empty());
}

#[test]
fn usage_equal_to_a_limit_has_not_passed_it() {
    let r = record((20, 20, 20), (3, 3, 3));
    assert!(check_user_quotas(&r, "staff").is_empty());
    let r = record((30, 20, 30), (3, 2, 3));
    assert_eq!(
        kinds(&check_user_quotas(&r, "staff")),
        vec![(Dimension::Block, Severity::Advisory), (Dimension::Inode, Severity::Advisory)]
    );
}

#[test]
fn zero_usage_gives_no_warning() {
    let r = record((0, 0, 0), (0, 0, 0));
    assert!(check_user_quotas(&r, "staff").is_empty());
}

#[test]
fn soft_block_limit_passed() {
    let r = record((2048, 1024, 4096), (1, 2, 3));
    let list = check_user_quotas(&r, "staff");
    assert_eq!(list.len(), 1);
    assert_eq!(list[0].severity, Severity::Advisory);
    assert_eq!(list[0].dimension, Dimension::Block);
    assert_eq!(
        list[0].message,
        "Soft block limit (1 KB) for /home by staff exceeded. Grace Period: 6days"
    );
}

#[test]
fn hard_block_limit_passed() {
    let r = record((5000, 1024, 1536), (1, 2, 3));
    let list = check_user_quotas(&r, "staff");
    assert_eq!(list.len(), 1);
    assert_eq!(list[0].severity, Severity::Critical);
    assert_eq!(list[0].dimension, Dimension::Block);
    assert_eq!(
        list[0].message,
        "Hard block limit (1.50 KB) for /home by staff exceeded. Grace Period: 6days"
    );
}

#[test]
fn soft_inode_limit_passed() {
    let r = record((1, 2, 3), (2000, 1500, 3000));
    let list = check_user_quotas(&r, "ops");
    assert_eq!(list.len(), 1);
    assert_eq!(list[0].severity, Severity::Advisory);
    assert_eq!(list[0].dimension, Dimension::Inode);
    assert_eq!(
        list[0].message,
        "Soft inode limit (1.46 K) for /home by ops exceeded. Grace Period: none"
    );
}

#[test]
fn hard_inode_limit_passed() {
    let r = record((1, 2, 3), (2000, 100, 500));
    let list = check_user_quotas(&r, "ops");
    assert_eq!(list.len(), 1);
    assert_eq!(list[0].severity, Severity::Critical);
    assert_eq!(list[0].dimension, Dimension::Inode);
    assert_eq!(
        list[0].message,
        "Hard inode limit (500) for /home by ops exceeded. Grace Period: none"
    );
}

#[test]
fn both_quotas_warn_side_by_side() {
    let r = record((5000, 1024, 2048), (15, 10, 20));
    let list = check_user_quotas(&r, "staff");
    assert_eq!(
        kinds(&list),
        vec![(Dimension::Block, Severity::Critical), (Dimension::Inode, Severity::Advisory)]
    );
    assert_eq!(
        list[0].message,
        "Hard block limit (2 KB) for /home by staff exceeded. Grace Period: 6days"
    );
    assert_eq!(
        list[1].message,
        "Soft inode limit (10) for /home by staff exceeded. Grace Period: none"
    );
}

#[test]
fn hard_limit_hides_the_soft_one() {
    let r = record((100, 10, 50), (100, 10, 50));
    assert_eq!(
        kinds(&check_user_quotas(&r, "staff")),
        vec![(Dimension::Block, Severity::Critical), (Dimension::Inode, Severity::Critical)]
    );
}

#[test]
fn soft_limit_above_the_hard_one() {
    // Usage between a hard limit and a higher soft limit is beyond the hard limit.
    let r = record((7, 10, 5), (1, 2, 3));
    assert_eq!(kinds(&check_user_quotas(&r, "staff")), vec![(Dimension::Block, Severity::Critical)]);
    // Below both, nothing is wrong.
    let r = record((5, 10, 5), (1, 2, 3));
    assert!(check_user_quotas(&r, "staff").is_empty());
}

#[test]
fn at_most_two_warnings() {
    let mut state: u64 = 0x9e37_79b9_7f4a_7c15;
    let mut draw = move || {
        state ^= state << 13;
        state ^= state >> 7;
        state ^= state << 17;
        state % 8
    };
    for _ in 0..5000 {
        let r = record((draw(), draw(), draw()), (draw(), draw(), draw()));
        let list = check_user_quotas(&r, "g");
        assert!(list.len() <= 2);
        let blocks: Vec<&Warning> =
            list.iter().filter(|w| w.dimension == Dimension::Block).collect();
        let expected = if r.block_hard < r.block_usage {
            Some(Severity::Critical)
        } else if r.block_soft < r.block_usage {
            Some(Severity::Advisory)
        } else {
            None
        };
        assert_eq!(blocks.iter().map(|w| w.severity).collect::<Vec<_>>(), expected.into_iter().collect::<Vec<_>>());
        let inodes = list.iter().filter(|w| w.dimension == Dimension::Inode).count();
        assert_eq!(inodes, usize::from(r.inode_hard < r.inode_usage || r.inode_soft < r.inode_usage));
    }
}

#[test]
fn display_row_has_nine_cells() {
    let r = record((2048, 1024, 1 << 30), (1500, 1000, 2000));
    assert_eq!(
        r.display_row(),
        vec!["/home", "2 KB", "1 KB", "1 GB", "6days", "1.46 K", "1000", "1.95 K", "none"]
    );
}
