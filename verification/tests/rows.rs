//! Rows as they lie on disk, and the tables that are made of them.

use cyfs_meta::columns::{
    dentry_row, dentry_target_cols, parse_dentry, symlink_path_from_blob, symlink_path_to_blob,
    TargetCols,
};
use cyfs_meta::errors::{MetaError, StateColumn};
use cyfs_meta::records::{
    node_state_cols, parse_node_state, DentryRecord, DentryTarget, FileCoolingState,
    FileLinkedState, FileWorkingState, FinalizedObjState, NodeRecord, NodeState, ObjId,
};
use cyfs_meta::tables::{parse_node, to_row, MetaTables, NodeRow};

fn obj(seed: &str) -> ObjId {
    ObjId::new("cyfile".to_string(), seed.to_string())
}

fn all_states() -> Vec<NodeState> {
    vec![
        NodeState::DirNormal,
        NodeState::DirOverlay,
        NodeState::FileNormal,
        NodeState::Working(FileWorkingState { fb_handle: "h".to_string(), last_write_at: 1 }),
        NodeState::Cooling(FileCoolingState { fb_handle: "h".to_string(), closed_at: 2 }),
        NodeState::Linked(FileLinkedState {
            obj_id: obj("o"),
            qcid: obj("q"),
            filebuffer_id: "fb".to_string(),
            linked_at: 3,
        }),
        NodeState::Finalized(FinalizedObjState { obj_id: obj("o"), finalized_at: 4 }),
    ]
}

fn node(inode_id: u64) -> NodeRecord {
    NodeRecord {
        inode_id,
        ref_by: Some(3),
        state: NodeState::DirNormal,
        read_only: true,
        base_obj_id: Some(obj("base")),
        rev: Some(9),
        meta: Some("{\"k\":[1,2]}".to_string()),
        lease_client_session: None,
        lease_seq: Some(2),
        lease_expire_at: Some(u64::MAX),
    }
}

#[test]
fn states_survive_their_columns() {
    let numbers: Vec<i64> = all_states().iter().map(|s| node_state_cols(s).state).collect();
    assert_eq!(numbers, vec![0, 1, 6, 2, 3, 4, 5]);
    for state in all_states() {
        assert_eq!(parse_node_state(&node_state_cols(&state)), Ok(state));
    }
}

#[test]
fn broken_state_columns_are_refused() {
    for state in all_states() {
        let mut cols = node_state_cols(&state);
        cols.fb_handle = None;
        cols.linked_at = None;
        cols.finalized_at = None;
        let plain = matches!(
            state,
            NodeState::DirNormal | NodeState::DirOverlay | NodeState::FileNormal
        );
        if plain {
            assert_eq!(parse_node_state(&cols), Ok(state));
        } else {
            let column = match state {
                NodeState::Linked(_) => StateColumn::LinkedAt,
                NodeState::Finalized(_) => StateColumn::FinalizedAt,
                _ => StateColumn::FbHandle,
            };
            assert_eq!(parse_node_state(&cols), Err(MetaError::MissingColumn { column }));
        }
    }
    let mut cols = node_state_cols(&NodeState::DirNormal);
    cols.state = 7;
    assert_eq!(parse_node_state(&cols), Err(MetaError::InvalidNodeState));
    assert_eq!(MetaError::InvalidNodeState.message(), "invalid node state");
}

#[test]
fn records_survive_their_rows() {
    for state in all_states() {
        let n = NodeRecord { state, ..node(7) };
        assert_eq!(parse_node(&to_row(n.clone(), 7)), Ok(n));
    }
}

#[test]
fn link_paths_survive_their_bytes() {
    for p in ["", "/a", "../b c", "/文件/é"] {
        let bytes = symlink_path_to_blob(p);
        assert_eq!(bytes, p.as_bytes().to_vec());
        assert_eq!(symlink_path_from_blob(bytes), Ok(p.to_string()));
    }
    let said = |bytes: Vec<u8>| symlink_path_from_blob(bytes).unwrap_err().message();
    assert_eq!(
        said(vec![0x61, 0xff]),
        "invalid symlink path bytes: invalid utf-8 sequence of 1 bytes from index 1"
    );
    assert_eq!(
        said(vec![0xe6, 0x96]),
        "invalid symlink path bytes: incomplete utf-8 byte sequence from index 0"
    );
}

fn dentry(target: DentryTarget) -> DentryRecord {
    DentryRecord { id: 4, parent: 2, name: "n".to_string(), target, mtime: Some(5) }
}

#[test]
fn entries_survive_their_rows() {
    let targets = vec![
        DentryTarget::IndexNodeId(11),
        DentryTarget::ObjId(obj("o")),
        DentryTarget::Tombstone,
        DentryTarget::SymLink("../x".to_string()),
    ];
    let kinds: Vec<i64> = targets.iter().map(|t| dentry_target_cols(t).target_type).collect();
    assert_eq!(kinds, vec![0, 1, 2, 3]);
    for target in targets {
        let d = dentry(target);
        assert_eq!(parse_dentry(dentry_row(&d)), Ok(d));
    }
}

#[test]
fn broken_entries_are_refused() {
    let with = |target_type| {
        let mut row = dentry_row(&dentry(DentryTarget::Tombstone));
        row.cols = TargetCols {
            target_type,
            target_inode_id: None,
            target_obj: None,
            target_path: None,
        };
        parse_dentry(row).unwrap_err()
    };
    assert_eq!(with(0), MetaError::MissingTargetInode);
    assert_eq!(with(1), MetaError::MissingTargetObj);
    assert_eq!(with(3), MetaError::MissingSymlinkPath);
    assert_eq!(with(9), MetaError::InvalidDentryTarget);
}

fn load(rows: Vec<NodeRow>) -> Result<MetaTables, MetaError> {
    MetaTables::load(rows, Vec::new(), Vec::new(), 1, 1)
}

#[test]
fn stored_rows_make_tables() {
    let t = load(vec![to_row(node(1), 1), to_row(node(5), 5)]).ok().unwrap();
    assert_eq!(t.get_inode(5), Ok(Some(node(5))));
    assert_eq!(t.get_inode(6), Ok(None));
    assert_eq!(load(vec![to_row(node(5), 5)]).err(), Some(MetaError::InodeNotFound));
}

#[test]
fn a_row_that_cannot_be_read_harms_no_other() {
    let mut broken = to_row(node(5), 5);
    broken.cols.state = 99;
    let mut half = to_row(node(6), 6);
    half.cols.state = 2;
    half.cols.fb_handle = None;
    let t = load(vec![to_row(node(1), 1), broken, half]).ok().unwrap();
    assert_eq!(t.get_inode(1), Ok(Some(node(1))));
    assert_eq!(t.get_inode(5), Err(MetaError::InvalidNodeState));
    let e = t.get_inode(6).unwrap_err();
    assert_eq!(e, MetaError::MissingColumn { column: StateColumn::FbHandle });
    assert_eq!(e.message(), "db error: Invalid column type Null at index: 9, name: fb_handle");
    assert_eq!(t.get_inode(7), Ok(None));
}

#[test]
fn metadata_has_to_be_json() {
    let with = |text: &str| {
        let n = NodeRecord { meta: Some(text.to_string()), ..node(1) };
        load(vec![to_row(n, 1)]).ok().unwrap().get_inode(1).err()
    };
    assert_eq!(with("{\"a\": [1, 2.5, null]}"), None);
    assert_eq!(with("\"text\""), None);
    assert_eq!(
        with("{\"a\": }").unwrap().message(),
        "invalid meta json: expected value at line 1 column 7"
    );
    assert_eq!(
        with("").unwrap().message(),
        "invalid meta json: EOF while parsing a value at line 1 column 0"
    );
}

#[test]
fn new_tables_hold_the_root() {
    let t = MetaTables::new();
    assert!(matches!(t.get_inode(1), Ok(Some(_))));
    assert!(matches!(t.get_inode(2), Ok(None)));
}
