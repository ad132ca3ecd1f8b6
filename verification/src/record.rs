//! The quota of one group on one filesystem.

use vstd::prelude::*;
use crate::units::{human_readable, readable};

verus! {

/// The number of columns in a quota row.
pub const COLUMNS: usize = 9;

/// One group's usage and limits on one filesystem, for blocks and for
/// inodes. Nothing ties a soft limit to its hard limit: a record whose soft
/// limit lies above the hard one is a record like any other.
#[derive(Debug, Clone)]
pub struct QuotaRecord {
    pub filesystem: String,
    pub block_usage: u64,
    pub block_soft: u64,
    pub block_hard: u64,
    pub block_grace: String,
    pub inode_usage: u64,
    pub inode_soft: u64,
    pub inode_hard: u64,
    pub inode_grace: String,
}

/// What a [`QuotaRecord`] holds, as plain values.
pub struct RecordModel {
    pub filesystem: Seq<char>,
    pub block_usage: u64,
    pub block_soft: u64,
    pub block_hard: u64,
    pub block_grace: Seq<char>,
    pub inode_usage: u64,
    pub inode_soft: u64,
    pub inode_hard: u64,
    pub inode_grace: Seq<char>,
}

impl View for QuotaRecord {
    type V = RecordModel;

    open spec fn view(&self) -> RecordModel {
        RecordModel {
            filesystem: self.filesystem@,
            block_usage: self.block_usage,
            block_soft: self.block_soft,
            block_hard: self.block_hard,
            block_grace: self.block_grace@,
            inode_usage: self.inode_usage,
            inode_soft: self.inode_soft,
            inode_hard: self.inode_hard,
            inode_grace: self.inode_grace@,
        }
    }
}

impl RecordModel {
    /// A record names the filesystem it is about.
    pub open spec fn wf(self) -> bool {
        self.filesystem.len() > 0
    }

    /// The nine cells that show this record, in column order: byte
    /// quantities for the block columns, plain counts for the inode columns.
    pub open spec fn cells(self) -> Seq<Seq<char>> {
        seq![
            self.filesystem,
            readable(self.block_usage, true),
            readable(self.block_soft, true),
            readable(self.block_hard, true),
            self.block_grace,
            readable(self.inode_usage, false),
            readable(self.inode_soft, false),
            readable(self.inode_hard, false),
            self.inode_grace,
        ]
    }
}

/// The texts of a list of strings.
pub open spec fn texts(cells: Seq<String>) -> Seq<Seq<char>> {
    Seq::new(cells.len(), |i: int| cells[i]@)
}

impl QuotaRecord {
    /// Whether this record names its filesystem.
    pub open spec fn wf(&self) -> bool {
        self@.wf()
    }

    /// The row that shows this record: one cell per column.
    pub fn display_row(&self) -> (row: Vec<String>)
        ensures
            row@.len() == COLUMNS,
            texts(row@) == self@.cells(),
    {
        let mut row: Vec<String> = Vec::new();
        row.push(self.filesystem.clone());
        row.push(human_readable(self.block_usage, true));
        row.push(human_readable(self.block_soft, true));
        row.push(human_readable(self.block_hard, true));
        row.push(self.block_grace.clone());
        row.push(human_readable(self.inode_usage, false));
        row.push(human_readable(self.inode_soft, false));
        row.push(human_readable(self.inode_hard, false));
        row.push(self.inode_grace.clone());
        proof {
            assert(texts(row@) =~= self@.cells());
        }
        row
    }
}

} // verus!
