//! Directory entries as rows of a table on disk.

use vstd::prelude::*;
use vstd::utf8::{decode_utf8, encode_utf8, encode_utf8_decode_utf8, encode_utf8_valid_utf8, valid_utf8};
use crate::errors::MetaError;
use crate::records::{same_target, DentryRecord, DentryTarget, ObjId};
use crate::table::Dup;
use crate::text::{decimal, decimal_text, joined};

verus! {

pub const DENTRY_TARGET_INODE: i64 = 0;

pub const DENTRY_TARGET_OBJ: i64 = 1;

pub const DENTRY_TARGET_TOMBSTONE: i64 = 2;

pub const DENTRY_TARGET_SYMLINK: i64 = 3;

/// The columns that say where an entry points.  An object id is stored as it
/// is; the path of a link is stored as bytes.
#[derive(Debug, Clone, PartialEq, Eq)]
pub struct TargetCols {
    pub target_type: i64,
    pub target_inode_id: Option<i64>,
    pub target_obj: Option<ObjId>,
    pub target_path: Option<Vec<u8>>,
}

/// A row of the table of entries.
#[derive(Debug, Clone, PartialEq, Eq)]
pub struct DentryRow {
    pub dentry_id: i64,
    pub parent_inode_id: i64,
    pub name: String,
    pub cols: TargetCols,
    pub mtime: Option<i64>,
}

/// What is said of bytes that are no valid UTF-8.
pub uninterp spec fn utf8_fault(bytes: Seq<u8>) -> Seq<char>;

/// Makes a text of bytes.  The call is `String::from_utf8` of the standard
/// library: it succeeds exactly on valid UTF-8, and the text has the characters
/// that the bytes encode.  Its error is handed on as text; of that text nothing
/// is claimed but that it is always the same for the same bytes, named
/// [`utf8_fault`].
#[verifier::external_body]
fn text_from_utf8(bytes: Vec<u8>) -> (r: Result<String, String>)
    ensures
        match r {
            Ok(s) => valid_utf8(bytes@) && s@ == decode_utf8(bytes@),
            Err(e) => !valid_utf8(bytes@) && e@ == utf8_fault(bytes@),
        },
{
    match String::from_utf8(bytes) {
        Ok(s) => Ok(s),
        Err(e) => Err(e.to_string()),
    }
}

/// The bytes of a link's path.
pub fn symlink_path_to_blob(path: &str) -> (r: Vec<u8>)
    ensures
        r@ == encode_utf8(path@),
{
    let bytes: &[u8] = path.as_bytes();
    let mut out: Vec<u8> = Vec::new();
    let mut i: usize = 0;
    while i < bytes.len()
        invariant
            0 <= i <= bytes@.len(),
            out@ =~= bytes@.take(i as int),
        decreases bytes@.len() - i,
    {
        out.push(bytes[i]);
        i = i + 1;
    }
    assert(out@ =~= bytes@);
    out
}

/// `e` refuses the bytes of a link, and says what is wrong with them.
pub open spec fn is_bytes_error(e: MetaError, bytes: Seq<u8>) -> bool {
    e matches MetaError::InvalidSymlinkBytes { cause } && cause@ == utf8_fault(bytes)
}

/// The path that the bytes of a link hold.
pub fn symlink_path_from_blob(blob: Vec<u8>) -> (r: Result<String, MetaError>)
    ensures
        match r {
            Ok(s) => valid_utf8(blob@) && s@ == decode_utf8(blob@),
            Err(e) => !valid_utf8(blob@) && is_bytes_error(e, blob@),
        },
{
    match text_from_utf8(blob) {
        Ok(s) => Ok(s),
        Err(cause) => Err(MetaError::InvalidSymlinkBytes { cause }),
    }
}

/// `cols` say that an entry points to `target`.
pub open spec fn is_target_cols(target: DentryTarget, cols: TargetCols) -> bool {
    match target {
        DentryTarget::IndexNodeId(id) => cols.target_type == DENTRY_TARGET_INODE
            && cols.target_inode_id == Some(id as i64) && cols.target_obj is None
            && cols.target_path is None,
        DentryTarget::SymLink(path) => cols.target_type == DENTRY_TARGET_SYMLINK
            && cols.target_inode_id is None && cols.target_obj is None && cols.target_path is Some
            && cols.target_path->0@ == encode_utf8(path@),
        DentryTarget::ObjId(o) => cols.target_type == DENTRY_TARGET_OBJ
            && cols.target_inode_id is None && cols.target_obj == Some(o)
            && cols.target_path is None,
        DentryTarget::Tombstone => cols.target_type == DENTRY_TARGET_TOMBSTONE
            && cols.target_inode_id is None && cols.target_obj is None
            && cols.target_path is None,
    }
}

pub fn dentry_target_cols(target: &DentryTarget) -> (r: TargetCols)
    ensures
        is_target_cols(*target, r),
{
    match target {
        DentryTarget::IndexNodeId(id) => TargetCols {
            target_type: DENTRY_TARGET_INODE,
            target_inode_id: Some(*id as i64),
            target_obj: None,
            target_path: None,
        },
        DentryTarget::SymLink(path) => TargetCols {
            target_type: DENTRY_TARGET_SYMLINK,
            target_inode_id: None,
            target_obj: None,
            target_path: Some(symlink_path_to_blob(path.as_str())),
        },
        DentryTarget::ObjId(o) => TargetCols {
            target_type: DENTRY_TARGET_OBJ,
            target_inode_id: None,
            target_obj: Some(o.dup()),
            target_path: None,
        },
        DentryTarget::Tombstone => TargetCols {
            target_type: DENTRY_TARGET_TOMBSTONE,
            target_inode_id: None,
            target_obj: None,
            target_path: None,
        },
    }
}

/// An integer in decimal.
pub open spec fn signed_decimal(n: int) -> Seq<char> {
    if n < 0 {
        "-"@ + decimal((-n) as nat)
    } else {
        decimal(n as nat)
    }
}

fn signed_decimal_text(n: i64) -> (r: String)
    ensures
        r@ == signed_decimal(n as int),
{
    if n >= 0 {
        decimal_text(n as u64)
    } else if n == i64::MIN {
        joined("-", decimal_text(9223372036854775808).as_str())
    } else {
        joined("-", decimal_text((-n) as u64).as_str())
    }
}

/// Where columns say that an entry points, or why they cannot be read.  A link
/// of the oldest format has an inode in the place of a path.
pub open spec fn reads_target(cols: TargetCols, r: Result<DentryTarget, MetaError>) -> bool {
    if cols.target_type == DENTRY_TARGET_INODE {
        r == match cols.target_inode_id {
            Some(id) => Ok::<DentryTarget, MetaError>(DentryTarget::IndexNodeId(id as u64)),
            None => Err::<DentryTarget, MetaError>(MetaError::MissingTargetInode),
        }
    } else if cols.target_type == DENTRY_TARGET_OBJ {
        r == match cols.target_obj {
            Some(o) => Ok::<DentryTarget, MetaError>(DentryTarget::ObjId(o)),
            None => Err::<DentryTarget, MetaError>(MetaError::MissingTargetObj),
        }
    } else if cols.target_type == DENTRY_TARGET_TOMBSTONE {
        r == Ok::<DentryTarget, MetaError>(DentryTarget::Tombstone)
    } else if cols.target_type == DENTRY_TARGET_SYMLINK {
        match cols.target_path {
            Some(blob) => if valid_utf8(blob@) {
                r matches Ok(DentryTarget::SymLink(s)) && s@ == decode_utf8(blob@)
            } else {
                r matches Err(e) && is_bytes_error(e, blob@)
            },
            None => match cols.target_inode_id {
                Some(id) => r matches Ok(DentryTarget::SymLink(s)) && s@ == "legacy-inode:"@
                    + signed_decimal(id as int),
                None => r == Err::<DentryTarget, MetaError>(MetaError::MissingSymlinkPath),
            },
        }
    } else {
        r == Err::<DentryTarget, MetaError>(MetaError::InvalidDentryTarget)
    }
}

fn parse_target(cols: TargetCols) -> (r: Result<DentryTarget, MetaError>)
    ensures
        reads_target(cols, r),
{
    if cols.target_type == DENTRY_TARGET_INODE {
        match cols.target_inode_id {
            Some(id) => Ok(DentryTarget::IndexNodeId(id as u64)),
            None => Err(MetaError::MissingTargetInode),
        }
    } else if cols.target_type == DENTRY_TARGET_OBJ {
        match cols.target_obj {
            Some(o) => Ok(DentryTarget::ObjId(o)),
            None => Err(MetaError::MissingTargetObj),
        }
    } else if cols.target_type == DENTRY_TARGET_TOMBSTONE {
        Ok(DentryTarget::Tombstone)
    } else if cols.target_type == DENTRY_TARGET_SYMLINK {
        match cols.target_path {
            Some(blob) => match symlink_path_from_blob(blob) {
                Ok(s) => Ok(DentryTarget::SymLink(s)),
                Err(e) => Err(e),
            },
            None => match cols.target_inode_id {
                Some(id) => Ok(
                    DentryTarget::SymLink(
                        joined("legacy-inode:", signed_decimal_text(id).as_str()),
                    ),
                ),
                None => Err(MetaError::MissingSymlinkPath),
            },
        }
    } else {
        Err(MetaError::InvalidDentryTarget)
    }
}

/// The entry that a row holds.
pub fn parse_dentry(row: DentryRow) -> (r: Result<DentryRecord, MetaError>)
    ensures
        match r {
            Ok(d) => {
                &&& reads_target(row.cols, Ok(d.target))
                &&& d.id == row.dentry_id as u64
                &&& d.parent == row.parent_inode_id as u64
                &&& d.name == row.name
                &&& d.mtime == match row.mtime {
                    Some(t) => Some(t as u64),
                    None => None,
                }
            },
            Err(e) => reads_target(row.cols, Err(e)),
        },
{
    match parse_target(row.cols) {
        Err(e) => Err(e),
        Ok(target) => Ok(
            DentryRecord {
                id: row.dentry_id as u64,
                parent: row.parent_inode_id as u64,
                name: row.name,
                target,
                mtime: match row.mtime {
                    Some(t) => Some(t as u64),
                    None => None,
                },
            },
        ),
    }
}

/// The row that an entry becomes.
pub fn dentry_row(d: &DentryRecord) -> (r: DentryRow)
    ensures
        is_target_cols(d.target, r.cols),
        r.dentry_id == d.id as i64,
        r.parent_inode_id == d.parent as i64,
        r.name == d.name,
        r.mtime == match d.mtime {
            Some(t) => Some(t as i64),
            None => None,
        },
{
    DentryRow {
        dentry_id: d.id as i64,
        parent_inode_id: d.parent as i64,
        name: d.name.clone(),
        cols: dentry_target_cols(&d.target),
        mtime: match d.mtime {
            Some(t) => Some(t as i64),
            None => None,
        },
    }
}

/// What was written to the columns of an entry is read back from them.
pub proof fn law_target_columns_round_trip(
    target: DentryTarget,
    cols: TargetCols,
    r: Result<DentryTarget, MetaError>,
)
    requires
        is_target_cols(target, cols),
        reads_target(cols, r),
    ensures
        r matches Ok(back) && same_target(back, target),
{
    match target {
        DentryTarget::IndexNodeId(id) => {
            assert((id as i64) as u64 == id) by (bit_vector);
        },
        DentryTarget::SymLink(path) => {
            encode_utf8_valid_utf8(path@);
            encode_utf8_decode_utf8(path@);
        },
        _ => {},
    }
}

} // verus!
