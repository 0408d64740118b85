use glowpub::types::{
    Board, BoardInPost, Continuity, Post, Section, Thread, User,
};

fn post(id: u64, section: Option<Section>, section_order: u64) -> Post {
    Post {
        id,
        authors: vec![User { id: 1, username: "alice".to_string() }],
        board: BoardInPost { id: 42, name: "somewhere".to_string() },
        character: None,
        content: String::new(),
        created_at: 1000 + id as i64,
        description: None,
        icon: None,
        num_replies: 0,
        section,
        section_order,
        status: "complete".to_string(),
        subject: format!("post {id}"),
        tagged_at: 2000 + id as i64,
    }
}

fn thread(id: u64, section: Option<Section>, section_order: u64) -> Thread {
    Thread { post: post(id, section, section_order), replies: vec![] }
}

fn section(id: u64, name: &str, order: u64) -> Section {
    Section { id, name: name.to_string(), order }
}

#[test]
fn timestamps_span_the_threads() {
    let c = Continuity {
        board: Board { id: 42, name: "b".to_string(), board_sections: vec![] },
        threads: vec![thread(3, None, 0), thread(1, None, 1), thread(2, None, 2)],
    };
    assert_eq!(c.created_at(), Some(1001));
    assert_eq!(c.tagged_at(), Some(2003));

    let empty = Continuity {
        board: Board { id: 42, name: "b".to_string(), board_sections: vec![] },
        threads: vec![],
    };
    assert_eq!(empty.created_at(), None);
    assert_eq!(empty.tagged_at(), None);
}

#[test]
fn authors_deduplicate_by_id_in_ascending_order() {
    let mut t1 = thread(1, None, 0);
    t1.post.authors = vec![
        User { id: 5, username: "edgar".to_string() },
        User { id: 2, username: "bob".to_string() },
    ];
    let mut t2 = thread(2, None, 1);
    t2.post.authors = vec![
        User { id: 2, username: "bob".to_string() },
        User { id: 1, username: "alice".to_string() },
    ];
    let c = Continuity {
        board: Board { id: 42, name: "b".to_string(), board_sections: vec![] },
        threads: vec![t1, t2],
    };
    let authors = c.authors();
    let ids: Vec<u64> = authors.iter().map(|u| u.id).collect();
    assert_eq!(ids, vec![1, 2, 5]);
    assert_eq!(authors[0].username, "alice");
}

/// Sections with orders [2,0,1] assemble ascending, with the
/// sectionless bucket always last.
#[test]
fn sections_sort_by_order_with_sectionless_last() {
    let s_c = section(10, "C", 2);
    let s_a = section(11, "A", 0);
    let s_b = section(12, "B", 1);
    let c = Continuity {
        board: Board {
            id: 42,
            name: "b".to_string(),
            board_sections: vec![s_c.clone(), s_a.clone(), s_b.clone()],
        },
        threads: vec![
            thread(1, Some(s_c.clone()), 0),
            thread(2, None, 0),
            thread(3, Some(s_a.clone()), 0),
        ],
    };
    let (sections, sectionless) = c.sections();
    let orders: Vec<u64> = sections.iter().map(|(s, _)| s.order).collect();
    assert_eq!(orders, vec![0, 1, 2]);
    let names: Vec<&str> = sections.iter().map(|(s, _)| s.name.as_str()).collect();
    assert_eq!(names, vec!["A", "B", "C"]);
    assert_eq!(sections[0].1, vec![2usize]);
    assert_eq!(sections[1].1, Vec::<usize>::new());
    assert_eq!(sections[2].1, vec![0usize]);
    // The sectionless bucket comes last, after every real section.
    assert_eq!(sectionless, vec![1usize]);
}

/// Board 42 with sections A and B and posts 100 (in A), 101
/// (unsectioned) and 102 (in B) assembles to A=[100], B=[102],
/// unsectioned=[101].
#[test]
fn concrete_board_assembly() {
    let a = section(1, "A", 0);
    let b = section(2, "B", 1);
    let c = Continuity {
        board: Board {
            id: 42,
            name: "somewhere".to_string(),
            board_sections: vec![a.clone(), b.clone()],
        },
        threads: vec![
            thread(100, Some(a.clone()), 0),
            thread(101, None, 0),
            thread(102, Some(b.clone()), 0),
        ],
    };
    let (sections, sectionless) = c.sections();
    assert_eq!(sections.len(), 2);

    let (ref sa, ref bucket_a) = sections[0];
    assert_eq!(sa.name, "A");
    let ids_a: Vec<u64> = bucket_a.iter().map(|&i| c.threads[i].post.id).collect();
    assert_eq!(ids_a, vec![100]);

    let (ref sb, ref bucket_b) = sections[1];
    assert_eq!(sb.name, "B");
    let ids_b: Vec<u64> = bucket_b.iter().map(|&i| c.threads[i].post.id).collect();
    assert_eq!(ids_b, vec![102]);

    let ids_rest: Vec<u64> = sectionless.iter().map(|&i| c.threads[i].post.id).collect();
    assert_eq!(ids_rest, vec![101]);
}

#[test]
fn threads_within_a_section_follow_section_order() {
    let a = section(1, "A", 0);
    let c = Continuity {
        board: Board {
            id: 42,
            name: "b".to_string(),
            board_sections: vec![a.clone()],
        },
        threads: vec![
            thread(100, Some(a.clone()), 2),
            thread(101, Some(a.clone()), 0),
            thread(102, Some(a.clone()), 1),
        ],
    };
    let (sections, _) = c.sections();
    let ids: Vec<u64> = sections[0].1.iter().map(|&i| c.threads[i].post.id).collect();
    assert_eq!(ids, vec![101, 102, 100]);
}

#[test]
fn the_synthetic_section_sorts_last() {
    let c = Continuity {
        board: Board {
            id: 42,
            name: "b".to_string(),
            board_sections: vec![section(1, "A", 7), section(2, "B", 3)],
        },
        threads: vec![],
    };
    let synthetic = c.unsectioned_section();
    assert_eq!(synthetic.id, 0);
    assert_eq!(synthetic.name, "Unsectioned Posts");
    assert!(c.board.board_sections.iter().all(|s| s.order <= synthetic.order));
}

#[test]
fn per_section_author_sets() {
    let a = section(1, "A", 0);
    let mut t1 = thread(100, Some(a.clone()), 0);
    t1.post.authors = vec![
        User { id: 5, username: "edgar".to_string() },
        User { id: 2, username: "bob".to_string() },
    ];
    let mut t2 = thread(101, Some(a.clone()), 1);
    t2.post.authors = vec![User { id: 2, username: "bob".to_string() }];
    let c = Continuity {
        board: Board {
            id: 42,
            name: "b".to_string(),
            board_sections: vec![a.clone()],
        },
        threads: vec![t1, t2],
    };
    let (sections, _) = c.sections();
    let authors = c.section_authors(&sections[0].1);
    let ids: Vec<u64> = authors.iter().map(|u| u.id).collect();
    assert_eq!(ids, vec![2, 5]);
}
