//! What is said to the metadata store when a table's description is to be
//! replaced, and what the store answers.

use crate::error::ErrorCode;
use crate::error::ErrorKind;
use crate::table::TableInfo;
use crate::table::TableMeta;
use vstd::prelude::*;

verus! {

/// A condition on the version of a record, under which a write to it is
/// taken.
#[derive(Clone, Copy, Debug, PartialEq, Eq, Structural)]
pub enum MatchSeq {
    /// Any version.
    Any,
    /// This version and no other.
    Exact(u64),
    /// This version or a later one.
    GE(u64),
}

impl MatchSeq {
    /// Whether a record at version `seq` meets the condition.
    pub open spec fn matches(self, seq: u64) -> bool {
        match self {
            MatchSeq::Any => true,
            MatchSeq::Exact(expected) => seq == expected,
            MatchSeq::GE(least) => seq >= least,
        }
    }

    /// Passes where a record at version `seq` meets the condition, and is
    /// a conflict where it does not.
    pub fn match_seq(&self, seq: u64) -> (met: Result<(), ErrorCode>)
        ensures
            met is Ok <==> self.matches(seq),
            met matches Err(e) ==> e@ == (crate::error::ErrorView {
                kind: ErrorKind::Conflict,
                message: "the record is not at the expected version"@,
            }),
    {
        let met = match self {
            MatchSeq::Any => true,
            MatchSeq::Exact(expected) => seq == *expected,
            MatchSeq::GE(least) => seq >= *least,
        };
        if met {
            Ok(())
        } else {
            Err(ErrorCode::create(ErrorKind::Conflict, "the record is not at the expected version"))
        }
    }
}

/// The request to replace a table's description, on condition of its
/// version.
#[derive(Debug)]
pub struct UpdateTableMetaReq {
    pub table_id: u64,
    pub seq: MatchSeq,
    pub new_table_meta: TableMeta,
    /// The streams whose position moves with the change.
    pub update_stream_meta: Vec<TableInfo>,
    pub deduplicated_label: Option<String>,
}

/// The mathematical value of an [`UpdateTableMetaReq`].
pub struct UpdateTableMetaReqView {
    pub table_id: u64,
    pub seq: MatchSeq,
    pub new_table_meta: crate::table::TableMetaView,
    pub update_stream_meta: Seq<crate::table::TableInfoView>,
    pub deduplicated_label: Option<Seq<char>>,
}

impl View for UpdateTableMetaReq {
    type V = UpdateTableMetaReqView;

    open spec fn view(&self) -> UpdateTableMetaReqView {
        UpdateTableMetaReqView {
            table_id: self.table_id,
            seq: self.seq,
            new_table_meta: self.new_table_meta@,
            update_stream_meta: Seq::new(
                self.update_stream_meta@.len(),
                |i: int| self.update_stream_meta@[i]@,
            ),
            deduplicated_label: match self.deduplicated_label {
                Some(label) => Some(label@),
                None => None,
            },
        }
    }
}

/// A table that is shared with other tenants, as the sharing subsystem
/// needs it.
#[derive(Debug)]
pub struct ShareTableInfo {
    pub share_name: String,
    pub table: TableInfo,
}

/// The store's answer to a request that it took.
#[derive(Debug)]
pub struct UpdateTableMetaReply {
    /// The shares of the table, where it is shared: they must be told of
    /// the new description.
    pub share_table_info: Option<Vec<ShareTableInfo>>,
}

} // verus!
