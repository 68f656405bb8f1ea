use makepad_logic::editor_state::{paths_equal, DirectoryEntry, Panel, State, TabKind, TreeNode};

fn entry(name: &str, node: TreeNode) -> DirectoryEntry {
    DirectoryEntry { name: name.to_string(), node }
}

fn sample_tree() -> TreeNode {
    TreeNode::Directory {
        entries: vec![
            entry("src", TreeNode::Directory { entries: vec![entry("lib.rs", TreeNode::File), entry("main.rs", TreeNode::File)] }),
            entry("Cargo.toml", TreeNode::File),
        ],
    }
}

fn strings(v: &[&str]) -> Vec<String> {
    v.iter().map(|s| s.to_string()).collect()
}

#[test]
fn initial_layout() {
    let s = State::new();
    assert_eq!(s.next_node_id, 1);
    assert_eq!(s.next_item_id, 1);
    assert_eq!(s.next_session_id, 0);
    assert!(matches!(s.panels_by_panel_id[&0], Panel::Splitter { panel_ids: (1, 2) }));
    assert!(matches!(&s.panels_by_panel_id[&1], Panel::TabBar { item_ids } if item_ids == &vec![0]));
    assert!(matches!(&s.panels_by_panel_id[&2], Panel::TabBar { item_ids } if item_ids.is_empty()));
    assert_eq!(s.tabs_by_item_id[&0].name, "File Tree");
    assert_eq!(s.tabs_by_item_id[&0].panel_id, 1);
    assert!(matches!(s.tabs_by_item_id[&0].kind, TabKind::FileTree));
    let root = &s.file_nodes_by_node_id[&0];
    assert_eq!(root.name, "root");
    assert!(root.parent_edge.is_none());
    assert_eq!(root.child_edges.as_ref().unwrap().len(), 0);
}

#[test]
fn file_tree_is_numbered_in_pre_order() {
    let mut s = State::new();
    s.set_file_tree(sample_tree());
    assert_eq!(s.next_node_id, 5);
    assert_eq!(s.file_nodes_by_node_id.len(), 5);
    let names: Vec<&str> = (0..5).map(|i| s.file_nodes_by_node_id[&i].name.as_str()).collect();
    assert_eq!(names, vec!["root", "src", "lib.rs", "main.rs", "Cargo.toml"]);
    let root_edges: Vec<(String, usize)> = s.file_nodes_by_node_id[&0]
        .child_edges.as_ref().unwrap().iter().map(|e| (e.name.clone(), e.node_id)).collect();
    assert_eq!(root_edges, vec![("src".to_string(), 1), ("Cargo.toml".to_string(), 4)]);
    let src_edges: Vec<usize> = s.file_nodes_by_node_id[&1].child_edges.as_ref().unwrap().iter().map(|e| e.node_id).collect();
    assert_eq!(src_edges, vec![2, 3]);
    assert_eq!(s.file_nodes_by_node_id[&3].parent_edge.as_ref().unwrap().node_id, 1);
    assert!(s.file_nodes_by_node_id[&4].child_edges.is_none());
}

#[test]
fn paths_follow_the_tree() {
    let mut s = State::new();
    s.set_file_tree(sample_tree());
    assert_eq!(s.file_node_path(0), Vec::<String>::new());
    assert_eq!(s.file_node_path(1), strings(&["src"]));
    assert_eq!(s.file_node_path(3), strings(&["src", "main.rs"]));
    assert_eq!(s.file_node_path(4), strings(&["Cargo.toml"]));
}

#[test]
fn replacing_the_tree_forgets_the_old_one() {
    let mut s = State::new();
    s.set_file_tree(sample_tree());
    s.set_file_tree(TreeNode::File);
    assert_eq!(s.next_node_id, 1);
    assert_eq!(s.file_nodes_by_node_id.len(), 1);
    assert!(s.file_nodes_by_node_id[&0].child_edges.is_none());
}

#[test]
fn pressing_files_and_opening_documents() {
    let mut s = State::new();
    s.set_file_tree(sample_tree());
    assert!(s.file_to_open(1).is_none());
    let path = s.file_to_open(2).unwrap();
    assert_eq!(path, strings(&["src", "lib.rs"]));
    let (item, session) = s.open_document(path.clone());
    assert_eq!((item, session), (1, 0));
    assert_eq!(s.next_item_id, 2);
    assert_eq!(s.next_session_id, 1);
    assert_eq!(s.tabs_by_item_id[&1].name, "lib.rs");
    assert_eq!(s.tabs_by_item_id[&1].panel_id, 2);
    assert!(matches!(s.tabs_by_item_id[&1].kind, TabKind::CodeEditor { session_id: 0 }));
    assert_eq!(s.sessions_by_session_id[&0], path);
    assert!(matches!(&s.panels_by_panel_id[&2], Panel::TabBar { item_ids } if item_ids == &vec![1]));
    assert!(s.has_document(&path));
    assert!(s.file_to_open(2).is_none());
    assert!(s.file_to_open(3).is_some());
    // opening the same document again gives a second tab but no second document
    let (item2, _) = s.open_document(path.clone());
    assert_eq!(item2, 2);
    assert_eq!(s.documents.len(), 1);
}

#[test]
fn path_equality() {
    assert!(paths_equal(&strings(&["a", "b"]), &strings(&["a", "b"])));
    assert!(!paths_equal(&strings(&["a", "b"]), &strings(&["a"])));
    assert!(!paths_equal(&strings(&["a", "b"]), &strings(&["a", "c"])));
}

use makepad_logic::editor_state::{Request, RequestQueue, Response, ResponseEffect};

#[test]
fn responses_answer_requests_in_order() {
    let mut state = State::new();
    let mut q = RequestQueue::new();
    q.send_request(Request::GetFileTree);
    q.send_request(Request::OpenFile(strings(&["src", "lib.rs"])));
    q.send_request(Request::ApplyDelta(strings(&["src", "lib.rs"]), 4));
    assert_eq!(q.outstanding.len(), 3);

    let e = q.handle_response(&mut state, Response::GetFileTree(sample_tree()));
    assert!(matches!(e, ResponseEffect::ShowFileTree));
    assert_eq!(state.file_nodes_by_node_id.len(), 5);

    let e = q.handle_response(&mut state, Response::OpenFile { revision: 3, text: "fn x() {}".to_string() });
    match e {
        ResponseEffect::OpenEditor { panel_id, item_id, session_id, path, revision, text } => {
            assert_eq!((panel_id, item_id, session_id, revision), (2, 1, 0, 3));
            assert_eq!(path, strings(&["src", "lib.rs"]));
            assert_eq!(text, "fn x() {}");
        }
        _ => panic!("expected an editor to open"),
    }
    assert_eq!(state.tabs_by_item_id[&1].name, "lib.rs");

    let e = q.handle_response(&mut state, Response::ApplyDelta);
    assert!(matches!(e, ResponseEffect::FinishLocalDelta { path } if path == strings(&["src", "lib.rs"])));
    assert!(q.outstanding.is_empty());
}

#[test]
fn pressing_tabs() {
    let mut s = State::new();
    s.set_file_tree(sample_tree());
    assert_eq!(s.tab_pressed(0), None);
    let (item, session) = s.open_document(strings(&["Cargo.toml"]));
    assert_eq!(s.tab_pressed(item), Some((2, session)));
}

#[test]
fn reopening_keeps_one_document() {
    let mut s = State::new();
    s.open_document(strings(&["a"]));
    s.open_document(strings(&["b"]));
    s.open_document(strings(&["a"]));
    assert_eq!(s.documents, vec![strings(&["a"]), strings(&["b"])]);
    assert!(matches!(&s.panels_by_panel_id[&2], Panel::TabBar { item_ids } if item_ids == &vec![1, 2, 3]));
    for i in [1usize, 2, 3] {
        assert_eq!(s.tabs_by_item_id[&i].panel_id, 2);
    }
}

#[test]
fn child_edges_and_parents_agree() {
    let mut s = State::new();
    s.set_file_tree(sample_tree());
    for (id, node) in &s.file_nodes_by_node_id {
        if let Some(edges) = &node.child_edges {
            let mut last = *id;
            for e in edges {
                assert!(e.node_id > last);
                last = e.node_id;
                let child = &s.file_nodes_by_node_id[&e.node_id];
                let pe = child.parent_edge.as_ref().unwrap();
                assert_eq!((pe.name.as_str(), pe.node_id), (e.name.as_str(), *id));
                assert_eq!(child.name, e.name);
            }
        }
    }
}
