//! Group names: which files name a group, and which groups may look.

use vstd::prelude::*;
use crate::record::texts;
use crate::snapshot::QUOTA_SUFFIX;

verus! {

/// The pattern of a snapshot's file name: the ending `.quota`.
pub const SNAPSHOT_PATTERN: &'static str = "\\.quota$";

/// The pattern of the name of an administrative group.
pub const ADMIN_PATTERN: &'static str = "^(root|[bghz]z.*)";

/// Whether `text` begins with `prefix`.
pub open spec fn has_prefix(text: Seq<char>, prefix: Seq<char>) -> bool {
    text.len() >= prefix.len() && text.take(prefix.len() as int) == prefix
}

/// Whether `text` ends with `suffix`.
pub open spec fn has_suffix(text: Seq<char>, suffix: Seq<char>) -> bool {
    text.len() >= suffix.len() && text.skip(text.len() - suffix.len()) == suffix
}

/// Whether a file name is that of a snapshot.
pub open spec fn is_snapshot_name(name: Seq<char>) -> bool {
    has_suffix(name, QUOTA_SUFFIX@)
}

/// A file name without the ending of a snapshot.
pub open spec fn stem(name: Seq<char>) -> Seq<char> {
    name.take(name.len() - QUOTA_SUFFIX@.len())
}

/// Whether a group of this name may look at the quotas: its name begins
/// with `root`, or with one of the letters `b`, `g`, `h`, `z` and then `z`.
pub open spec fn is_admin_name(name: Seq<char>) -> bool {
    has_prefix(name, "root"@) || (name.len() >= 2 && (name[0] == 'b' || name[0] == 'g' || name[0]
        == 'h' || name[0] == 'z') && name[1] == 'z')
}

/// The groups that a list of file names stands for: the stem of every name
/// that is a snapshot's, in the order of the names.
pub open spec fn group_names(entries: Seq<Seq<char>>) -> Seq<Seq<char>>
    decreases entries.len(),
{
    if entries.len() == 0 {
        Seq::empty()
    } else {
        let before = group_names(entries.drop_last());
        if is_snapshot_name(entries.last()) {
            before.push(stem(entries.last()))
        } else {
            before
        }
    }
}

/// Searches `text` for `pattern` with `regex::Regex::is_match`, on a regex
/// that `regex::Regex::new` compiles. It takes the two patterns of this
/// module, which compile. Of each it claims what the pattern says in the
/// syntax of the `regex` crate: `$` and `^` stand for the very end and the
/// very start of the text, `\.` for a dot, the other characters for
/// themselves, `[bghz]` for one of four letters, and `.*` for anything,
/// nothing included.
#[verifier::external_body]
fn pattern_found(pattern: &str, text: &str) -> (found: bool)
    requires
        pattern@ == SNAPSHOT_PATTERN@ || pattern@ == ADMIN_PATTERN@,
    ensures
        pattern@ == SNAPSHOT_PATTERN@ ==> found == is_snapshot_name(text@),
        pattern@ == ADMIN_PATTERN@ ==> found == is_admin_name(text@),
{
    regex::Regex::new(pattern).unwrap().is_match(text)
}

/// Takes what `pattern` matches out of `text` with `regex::Regex::replace`,
/// on a regex that `regex::Regex::new` compiles. It takes the pattern of a
/// snapshot's name, which can match at the end of the text only: the text
/// comes back without that ending, or whole where it does not end so.
#[verifier::external_body]
fn pattern_removed(pattern: &str, text: &str) -> (rest: String)
    requires
        pattern@ == SNAPSHOT_PATTERN@,
    ensures
        rest@ == (if is_snapshot_name(text@) {
            stem(text@)
        } else {
            text@
        }),
{
    regex::Regex::new(pattern).unwrap().replace(text, "").into_owned()
}

/// Lists the groups that have a snapshot, given the names of the files in
/// the snapshot directory.
///
/// A file names a group where its name ends in `.quota`; the group is the
/// name without that ending. Other files are passed over. The groups come
/// in the order of the names.
pub fn get_groups(entries: &Vec<String>) -> (groups: Vec<String>)
    ensures
        texts(groups@) == group_names(texts(entries@)),
        groups@.len() <= entries@.len(),
{
    let mut groups: Vec<String> = Vec::new();
    let ghost all = texts(entries@);
    let mut i: usize = 0;
    while i < entries.len()
        invariant
            i <= entries@.len(),
            all == texts(entries@),
            groups@.len() <= i,
            texts(groups@) == group_names(all.take(i as int)),
        decreases entries@.len() - i,
    {
        let ghost next = all.take(i + 1);
        proof {
            assert(next.drop_last() =~= all.take(i as int));
            assert(next.last() == entries@[i as int]@);
        }
        let name = entries[i].as_str();
        if pattern_found(SNAPSHOT_PATTERN, name) {
            groups.push(pattern_removed(SNAPSHOT_PATTERN, name));
            proof {
                assert(texts(groups@) =~= group_names(next));
            }
        }
        i = i + 1;
    }
    proof {
        assert(all.take(i as int) =~= all);
    }
    groups
}

/// Whether a group of this name may look at the quotas.
pub fn is_admin_group(name: &str) -> (admin: bool)
    ensures
        admin == is_admin_name(name@),
{
    pattern_found(ADMIN_PATTERN, name)
}

/// Whether a user who belongs to these groups may look at the quotas: one
/// of the groups, at least, has an administrative name.
pub fn verify_privileges(groups: &Vec<String>) -> (allowed: bool)
    ensures
        allowed == exists|i: int| 0 <= i < groups@.len() && is_admin_name(#[trigger] groups@[i]@),
{
    let mut i: usize = 0;
    while i < groups.len()
        invariant
            i <= groups@.len(),
            forall|j: int| 0 <= j < i ==> !is_admin_name(#[trigger] groups@[j]@),
        decreases groups@.len() - i,
    {
        if is_admin_group(groups[i].as_str()) {
            return true;
        }
        i = i + 1;
    }
    false
}

} // verus!
