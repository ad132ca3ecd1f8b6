use quota_control::groups::{get_groups, is_admin_group, verify_privileges};

fn list(items: &[&str]) -> Vec<String> {
    items.iter().map(|s| s.to_string()).collect()
}

#[test]
fn snapshots_name_groups() {
    let entries = list(&["alpha.quota", "beta.quota", "notes.txt"]);
    assert_eq!(get_groups(&entries), vec!["alpha", "beta"]);
}

#[test]
fn groups_come_in_the_order_of_the_files() {
    let entries = list(&["zeta.quota", "readme", "alpha.quota", "mid.quota"]);
    assert_eq!(get_groups(&entries), vec!["zeta", "alpha", "mid"]);
}

#[test]
fn no_files_no_groups() {
    assert!(get_groups(&Vec::new()).is_empty());
    assert!(get_groups(&list(&["a", "b.txt", "quota"])).is_empty());
}

#[test]
fn the_ending_must_be_at_the_end() {
    let entries = list(&["a.quotas", "b.quota.bak", "c.quota ", "d.QUOTA", "equota", ".quot"]);
    assert!(get_groups(&entries).is_empty());
}

#[test]
fn only_the_ending_is_taken_off() {
    let entries = list(&["x.quota.quota", ".quota", "a.b.quota", "größe.quota"]);
    assert_eq!(get_groups(&entries), vec!["x.quota", "", "a.b", "größe"]);
}

#[test]
fn the_same_group_twice_stays_twice() {
    let entries = list(&["a.quota", "a.quota"]);
    assert_eq!(get_groups(&entries), vec!["a", "a"]);
}

#[test]
fn administrative_names() {
    for name in ["root", "rootkit", "roots", "bz", "gz", "hz", "zz", "bzip", "hz-admins", "zzz"] {
        assert!(is_admin_group(name), "{}", name);
    }
}

#[test]
fn other_names() {
    for name in [
        "", "r", "roo", "Root", "toor", "xroot", "b", "z", "az", "Bz", "bZ", "b-z", "abz", "staff",
        "wheel", "zb", "üz",
    ] {
        assert!(!is_admin_group(name), "{}", name);
    }
}

#[test]
fn one_administrative_group_is_enough() {
    assert!(verify_privileges(&list(&["users", "audio", "gz-ops"])));
    assert!(verify_privileges(&list(&["root"])));
    assert!(verify_privileges(&list(&["users", "root", "users"])));
}

#[test]
fn without_an_administrative_group() {
    assert!(!verify_privileges(&Vec::new()));
    assert!(!verify_privileges(&list(&["users", "audio", "video"])));
}
