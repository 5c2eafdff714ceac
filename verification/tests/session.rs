use manbo::candidate::{Candidate, CandidateKind};
use manbo::session::{footer, page_size_for, Session};

fn candidate(i: usize) -> Candidate {
    Candidate {
        text: format!("本{i}"),
        kind: CandidateKind::Chinese,
        syllables: vec!["a".into()],
        reading: None,
        translation: None,
    }
}

fn cells(count: usize) -> Vec<Option<Candidate>> {
    (0..count).map(|i| Some(candidate(i))).collect()
}

#[test]
fn digits_map_to_cells_on_the_current_page() {
    let mut session = Session::default();
    session.reset(None, cells(3), 9);
    assert_eq!(session.index_on_page(2), Some(2));
    assert_eq!(session.index_on_page(3), None);
    assert!(session.move_highlight(1));
    assert!(session.move_highlight(5));
    assert_eq!(session.highlighted, 2);
    assert!(!session.move_highlight(1));
}

#[test]
fn paging_follows_the_layout() {
    let mut session = Session::default();
    session.reset(None, cells(12), 9);
    assert_eq!(session.pages(), 2);
    assert!(session.turn_page(1));
    assert_eq!(session.highlighted, 9);
    assert_eq!(session.index_on_page(0), Some(9));
    assert!(!session.turn_page(1));
}

#[test]
fn navigation_is_remembered_until_the_next_query() {
    let mut session = Session::default();
    session.reset(None, cells(12), 9);
    assert!(!session.navigated);
    assert!(!session.move_highlight(-1));
    assert!(!session.navigated);
    assert!(session.move_highlight(1));
    assert!(session.navigated);
    session.reset(None, cells(3), 9);
    assert!(!session.navigated);
    assert!(!session.turn_page(1));
    assert!(!session.navigated);
    session.reset(None, cells(12), 9);
    assert!(session.turn_page(1));
    assert!(session.navigated);
}

#[test]
fn sparse_custom_positions_keep_highlight_on_real_candidates() {
    // A custom phrase pinned to position 9 on pages of 5: the core puts it in cell 8.
    let mut custom = candidate(0);
    custom.kind = CandidateKind::Custom(9);
    let mut only_custom: Vec<Option<Candidate>> = vec![None; 8];
    only_custom.push(Some(custom.clone()));
    let mut session = Session::default();
    session.reset(None, only_custom, 5);
    assert_eq!((session.page, session.highlighted), (1, 8));
    assert!(!session.turn_page(-1));
    let mut with_word: Vec<Option<Candidate>> = vec![Some(candidate(1))];
    with_word.extend(vec![None; 7]);
    with_word.push(Some(custom));
    session.reset(None, with_word, 5);
    assert_eq!((session.page, session.highlighted), (0, 0));
    assert!(session.turn_page(1));
    assert_eq!((session.page, session.highlighted), (1, 8));
    assert!(session.move_highlight(-1));
    assert_eq!((session.page, session.highlighted), (0, 0));
}

#[test]
fn an_empty_layout_has_nothing_to_move_to() {
    let mut session = Session::default();
    session.reset(None, Vec::new(), 9);
    assert_eq!((session.highlighted, session.page), (0, 0));
    assert!(!session.move_highlight(1));
    assert!(!session.turn_page(1));
    assert!(!session.turn_page(-1));
    assert_eq!(session.index_on_page(0), None);
    assert_eq!(session.pages(), 0);
    assert!(session.page_cells().is_empty());
}

#[test]
fn moving_skips_empty_cells_in_its_direction() {
    let mut session = Session::default();
    let layout = vec![Some(candidate(0)), None, None, Some(candidate(3)), None];
    session.reset(None, layout, 2);
    assert!(session.move_highlight(1));
    assert_eq!((session.highlighted, session.page), (3, 1));
    assert!(!session.move_highlight(1));
    assert_eq!(session.highlighted, 3);
    assert!(session.move_highlight(-2));
    assert_eq!((session.highlighted, session.page), (0, 0));
    assert!(!session.move_highlight(0));
}

#[test]
fn turning_back_lands_on_the_first_candidate_of_the_page() {
    let mut session = Session::default();
    session.reset(None, cells(12), 3);
    assert!(session.move_highlight(10));
    assert_eq!((session.highlighted, session.page), (10, 3));
    assert!(session.turn_page(-2));
    assert_eq!((session.highlighted, session.page), (3, 1));
    assert_eq!(session.highlight_on_page(), 0);
    assert!(session.turn_page(-5));
    assert_eq!((session.highlighted, session.page), (0, 0));
    assert!(session.turn_page(100));
    assert_eq!((session.highlighted, session.page), (9, 3));
    assert_eq!(session.page_cells().len(), 3);
}

#[test]
fn the_footer_counts_pages_from_one() {
    assert_eq!(footer(0, 1), None);
    assert_eq!(footer(1, 3).as_deref(), Some("2/3"));
    assert_eq!(page_size_for(9, 5), 5);
    assert_eq!(page_size_for(0, 5), 1);
    assert_eq!(page_size_for(4, 0), 1);
    assert_eq!(page_size_for(4, 9), 4);
}

#[test]
fn the_highlight_stays_on_a_candidate_whatever_the_keys() {
    // Cells with gaps, as pinned phrases and empty cloud cells leave them.
    let layout: Vec<Option<Candidate>> = (0..23)
        .map(|i| if i % 3 == 1 || i % 7 == 0 { None } else { Some(candidate(i)) })
        .collect();
    let mut session = Session::default();
    session.reset(None, layout.clone(), 4);
    let mut seed: u64 = 7;
    for _ in 0..500 {
        seed = seed.wrapping_mul(6364136223846793005).wrapping_add(1442695040888963407);
        let delta = ((seed >> 33) % 11) as isize - 5;
        if seed % 2 == 0 {
            session.move_highlight(delta);
        } else {
            session.turn_page(delta);
        }
        assert!(layout[session.highlighted].is_some());
        assert_eq!(session.page, session.highlighted / 4);
    }
}

#[test]
fn reranking_redraws_only_an_untouched_first_page() {
    let mut session = Session::default();
    session.reset(None, cells(12), 9);
    assert!(session.rerank_may_redraw());
    assert!(session.move_highlight(1));
    assert!(!session.rerank_may_redraw());
    session.reset(None, cells(12), 9);
    assert!(session.turn_page(1));
    assert!(!session.rerank_may_redraw());
}
