//! Warnings for usage that has passed a limit.

use vstd::prelude::*;
use vstd::string::StringExecFns;
use crate::record::{QuotaRecord, RecordModel};
use crate::units::{human_readable, readable};

verus! {

/// How serious a warning is.
#[derive(Clone, Copy, Debug, PartialEq, Eq, Structural)]
pub enum Severity {
    /// Usage has passed the hard limit.
    Critical,
    /// Usage has passed the soft limit, and not the hard one.
    Advisory,
}

/// Which of the two quotas of a record a warning is about.
#[derive(Clone, Copy, Debug, PartialEq, Eq, Structural)]
pub enum Dimension {
    Block,
    Inode,
}

/// A limit that a group has passed on a filesystem.
#[derive(Debug, Clone)]
pub struct Warning {
    pub severity: Severity,
    pub dimension: Dimension,
    /// Names the limit and its value, the filesystem, the group and the
    /// grace period.
    pub message: String,
}

/// What a [`Warning`] holds, as plain values.
pub struct WarningModel {
    pub severity: Severity,
    pub dimension: Dimension,
    pub message: Seq<char>,
}

impl View for Warning {
    type V = WarningModel;

    open spec fn view(&self) -> WarningModel {
        WarningModel { severity: self.severity, dimension: self.dimension, message: self.message@ }
    }
}

/// The models of a list of warnings.
pub open spec fn warning_models(list: Seq<Warning>) -> Seq<WarningModel> {
    Seq::new(list.len(), |i: int| list[i]@)
}

/// The words that name a limit in a message.
pub open spec fn limit_name(severity: Severity, dimension: Dimension) -> Seq<char> {
    match (severity, dimension) {
        (Severity::Critical, Dimension::Block) => "Hard block"@,
        (Severity::Advisory, Dimension::Block) => "Soft block"@,
        (Severity::Critical, Dimension::Inode) => "Hard inode"@,
        (Severity::Advisory, Dimension::Inode) => "Soft inode"@,
    }
}

/// The message of a warning: the limit by name, its value in brackets, then
/// the filesystem, the group and the grace period.
pub open spec fn message_text(
    severity: Severity,
    dimension: Dimension,
    limit: Seq<char>,
    filesystem: Seq<char>,
    group: Seq<char>,
    grace: Seq<char>,
) -> Seq<char> {
    limit_name(severity, dimension) + " limit ("@ + limit + ") for "@ + filesystem + " by "@ + group
        + " exceeded. Grace Period: "@ + grace
}

/// The warning that the block quota of `record` calls for, if any. The hard
/// limit is looked at first, so usage beyond both limits gives one warning,
/// for the hard limit. Usage equal to a limit has not passed it.
pub open spec fn block_warning(record: RecordModel, group: Seq<char>) -> Option<WarningModel> {
    if record.block_hard < record.block_usage {
        Some(
            WarningModel {
                severity: Severity::Critical,
                dimension: Dimension::Block,
                message: message_text(
                    Severity::Critical,
                    Dimension::Block,
                    readable(record.block_hard, true),
                    record.filesystem,
                    group,
                    record.block_grace,
                ),
            },
        )
    } else if record.block_soft < record.block_usage {
        Some(
            WarningModel {
                severity: Severity::Advisory,
                dimension: Dimension::Block,
                message: message_text(
                    Severity::Advisory,
                    Dimension::Block,
                    readable(record.block_soft, true),
                    record.filesystem,
                    group,
                    record.block_grace,
                ),
            },
        )
    } else {
        None
    }
}

/// The warning that the inode quota of `record` calls for, if any, by the
/// same rule as for blocks. Inode limits are counts, not bytes.
pub open spec fn inode_warning(record: RecordModel, group: Seq<char>) -> Option<WarningModel> {
    if record.inode_hard < record.inode_usage {
        Some(
            WarningModel {
                severity: Severity::Critical,
                dimension: Dimension::Inode,
                message: message_text(
                    Severity::Critical,
                    Dimension::Inode,
                    readable(record.inode_hard, false),
                    record.filesystem,
                    group,
                    record.inode_grace,
                ),
            },
        )
    } else if record.inode_soft < record.inode_usage {
        Some(
            WarningModel {
                severity: Severity::Advisory,
                dimension: Dimension::Inode,
                message: message_text(
                    Severity::Advisory,
                    Dimension::Inode,
                    readable(record.inode_soft, false),
                    record.filesystem,
                    group,
                    record.inode_grace,
                ),
            },
        )
    } else {
        None
    }
}

/// Zero or one item as a sequence.
pub open spec fn optional<T>(item: Option<T>) -> Seq<T> {
    match item {
        Some(x) => seq![x],
        None => Seq::empty(),
    }
}

/// The warnings that `record` calls for: that for blocks, then that for
/// inodes.
pub open spec fn warnings(record: RecordModel, group: Seq<char>) -> Seq<WarningModel> {
    optional(block_warning(record, group)) + optional(inode_warning(record, group))
}

/// How many warnings of `list` are about `dimension` with `severity`.
pub open spec fn tally(list: Seq<WarningModel>, dimension: Dimension, severity: Severity) -> nat
    decreases list.len(),
{
    if list.len() == 0 {
        0
    } else {
        let rest = tally(list.drop_last(), dimension, severity);
        if list.last().dimension == dimension && list.last().severity == severity {
            rest + 1
        } else {
            rest
        }
    }
}

/// The text that names a limit in a message.
fn limit_name_text(severity: Severity, dimension: Dimension) -> (name: &'static str)
    ensures
        name@ == limit_name(severity, dimension),
{
    match (severity, dimension) {
        (Severity::Critical, Dimension::Block) => "Hard block",
        (Severity::Advisory, Dimension::Block) => "Soft block",
        (Severity::Critical, Dimension::Inode) => "Hard inode",
        (Severity::Advisory, Dimension::Inode) => "Soft inode",
    }
}

/// Builds the warning for one passed limit.
fn limit_warning(
    severity: Severity,
    dimension: Dimension,
    limit: u64,
    filesystem: &str,
    group: &str,
    grace: &str,
) -> (warning: Warning)
    ensures
        warning@ == (WarningModel {
            severity,
            dimension,
            message: message_text(
                severity,
                dimension,
                readable(limit, dimension == Dimension::Block),
                filesystem@,
                group@,
                grace@,
            ),
        }),
{
    let bytes = match dimension {
        Dimension::Block => true,
        Dimension::Inode => false,
    };
    let value = human_readable(limit, bytes);
    let mut message = String::new();
    message.append(limit_name_text(severity, dimension));
    message.append(" limit (");
    message.append(value.as_str());
    message.append(") for ");
    message.append(filesystem);
    message.append(" by ");
    message.append(group);
    message.append(" exceeded. Grace Period: ");
    message.append(grace);
    proof {
        assert(message@ =~= message_text(
            severity,
            dimension,
            readable(limit, bytes),
            filesystem@,
            group@,
            grace@,
        ));
    }
    Warning { severity, dimension, message }
}

/// Holds the usage of `record` against its limits and lists the warnings it
/// calls for on behalf of `group`.
///
/// Blocks and inodes are judged apart, blocks first. For each, usage beyond
/// the hard limit gives one critical warning and nothing else; usage beyond
/// the soft limit alone gives one advisory warning; usage at or below both
/// gives none.
pub fn check_user_quotas(record: &QuotaRecord, group: &str) -> (results: Vec<Warning>)
    ensures
        warning_models(results@) == warnings(record@, group@),
        results@.len() <= 2,
        tally(warning_models(results@), Dimension::Block, Severity::Critical) == (if record.block_hard
            < record.block_usage {
            1nat
        } else {
            0nat
        }),
        tally(warning_models(results@), Dimension::Block, Severity::Advisory) == (if record.block_soft
            < record.block_usage && record.block_usage <= record.block_hard {
            1nat
        } else {
            0nat
        }),
        tally(warning_models(results@), Dimension::Inode, Severity::Critical) == (if record.inode_hard
            < record.inode_usage {
            1nat
        } else {
            0nat
        }),
        tally(warning_models(results@), Dimension::Inode, Severity::Advisory) == (if record.inode_soft
            < record.inode_usage && record.inode_usage <= record.inode_hard {
            1nat
        } else {
            0nat
        }),
{
    let mut results: Vec<Warning> = Vec::new();
    if record.block_hard < record.block_usage {
        results.push(
            limit_warning(
                Severity::Critical,
                Dimension::Block,
                record.block_hard,
                record.filesystem.as_str(),
                group,
                record.block_grace.as_str(),
            ),
        );
    } else if record.block_soft < record.block_usage {
        results.push(
            limit_warning(
                Severity::Advisory,
                Dimension::Block,
                record.block_soft,
                record.filesystem.as_str(),
                group,
                record.block_grace.as_str(),
            ),
        );
    }
    if record.inode_hard < record.inode_usage {
        results.push(
            limit_warning(
                Severity::Critical,
                Dimension::Inode,
                record.inode_hard,
                record.filesystem.as_str(),
                group,
                record.inode_grace.as_str(),
            ),
        );
    } else if record.inode_soft < record.inode_usage {
        results.push(
            limit_warning(
                Severity::Advisory,
                Dimension::Inode,
                record.inode_soft,
                record.filesystem.as_str(),
                group,
                record.inode_grace.as_str(),
            ),
        );
    }
    proof {
        assert(warning_models(results@) =~= warnings(record@, group@));
        lemma_tallies(record@, group@);
    }
    results
}

/// Each quota of a record gives at most one warning, and which one depends
/// on that quota's usage and limits alone: a critical one where usage is
/// beyond the hard limit, an advisory one where it is beyond the soft limit
/// and not the hard one, none otherwise. So a record gives at most two
/// warnings, one for blocks and one for inodes, and each of them whatever
/// the other quota holds.
pub proof fn lemma_tallies(record: RecordModel, group: Seq<char>)
    ensures
        warnings(record, group).len() <= 2,
        tally(warnings(record, group), Dimension::Block, Severity::Critical) == (if record.block_hard
            < record.block_usage {
            1nat
        } else {
            0nat
        }),
        tally(warnings(record, group), Dimension::Block, Severity::Advisory) == (if record.block_soft
            < record.block_usage && record.block_usage <= record.block_hard {
            1nat
        } else {
            0nat
        }),
        tally(warnings(record, group), Dimension::Inode, Severity::Critical) == (if record.inode_hard
            < record.inode_usage {
            1nat
        } else {
            0nat
        }),
        tally(warnings(record, group), Dimension::Inode, Severity::Advisory) == (if record.inode_soft
            < record.inode_usage && record.inode_usage <= record.inode_hard {
            1nat
        } else {
            0nat
        }),
{
    let list = warnings(record, group);
    reveal_with_fuel(tally, 3);
    if list.len() == 2 {
        assert(list.drop_last().len() == 1);
        assert(list.drop_last().drop_last().len() == 0);
        assert(list.drop_last().last() == list[0]);
    } else if list.len() == 1 {
        assert(list.drop_last().len() == 0);
    }
}

/// The three cases of the block quota, as long as usage at or below the
/// soft limit is at or below the hard limit too: usage at or below the soft
/// limit gives no block warning; usage beyond the soft limit and not beyond
/// the hard one gives one advisory block warning and no critical one; usage
/// beyond the hard limit gives one critical block warning and no advisory
/// one. The same holds of the inode quota.
///
/// Where the soft limit lies above the hard one, usage between the two is
/// beyond the hard limit and gives the critical warning, though it is
/// below the soft limit.
pub proof fn lemma_quota_cases(record: RecordModel, group: Seq<char>)
    ensures
        record.block_usage <= record.block_soft && record.block_usage <= record.block_hard ==> {
            &&& tally(warnings(record, group), Dimension::Block, Severity::Critical) == 0
            &&& tally(warnings(record, group), Dimension::Block, Severity::Advisory) == 0
        },
        record.block_soft < record.block_usage <= record.block_hard ==> {
            &&& tally(warnings(record, group), Dimension::Block, Severity::Critical) == 0
            &&& tally(warnings(record, group), Dimension::Block, Severity::Advisory) == 1
        },
        record.block_hard < record.block_usage ==> {
            &&& tally(warnings(record, group), Dimension::Block, Severity::Critical) == 1
            &&& tally(warnings(record, group), Dimension::Block, Severity::Advisory) == 0
        },
        record.inode_usage <= record.inode_soft && record.inode_usage <= record.inode_hard ==> {
            &&& tally(warnings(record, group), Dimension::Inode, Severity::Critical) == 0
            &&& tally(warnings(record, group), Dimension::Inode, Severity::Advisory) == 0
        },
        record.inode_soft < record.inode_usage <= record.inode_hard ==> {
            &&& tally(warnings(record, group), Dimension::Inode, Severity::Critical) == 0
            &&& tally(warnings(record, group), Dimension::Inode, Severity::Advisory) == 1
        },
        record.inode_hard < record.inode_usage ==> {
            &&& tally(warnings(record, group), Dimension::Inode, Severity::Critical) == 1
            &&& tally(warnings(record, group), Dimension::Inode, Severity::Advisory) == 0
        },
{
    lemma_tallies(record, group);
}

/// The two quotas of a record are judged apart: the warning for blocks is
/// the same whatever the inode quota holds, and the warning for inodes the
/// same whatever the block quota holds. A record can call for both at once.
pub proof fn lemma_quotas_apart(a: RecordModel, b: RecordModel, group: Seq<char>)
    ensures
        a.filesystem == b.filesystem && a.block_usage == b.block_usage && a.block_soft
            == b.block_soft && a.block_hard == b.block_hard && a.block_grace == b.block_grace
            ==> block_warning(a, group) == block_warning(b, group),
        a.filesystem == b.filesystem && a.inode_usage == b.inode_usage && a.inode_soft
            == b.inode_soft && a.inode_hard == b.inode_hard && a.inode_grace == b.inode_grace
            ==> inode_warning(a, group) == inode_warning(b, group),
        block_warning(a, group) is Some && inode_warning(a, group) is Some ==> warnings(a, group)
            == seq![block_warning(a, group)->0, inode_warning(a, group)->0],
{
    if block_warning(a, group) is Some && inode_warning(a, group) is Some {
        assert(warnings(a, group) =~= seq![
            block_warning(a, group)->0,
            inode_warning(a, group)->0,
        ]);
    }
}

} // verus!
