use badgine::evaluation::evaluate;
use badgine::position::Position;
use badgine::score::Eval;
use badgine::search::{exploration_index, Node};
use cozy_chess::{Board, Move};
use nohash::IntSet;

fn board(fen: &str) -> Board {
    fen.parse().unwrap()
}

fn check_consistent(node: &Node) {
    if let Some(children) = &node.children {
        for w in children.windows(2) {
            assert!(w[0].1.eval <= w[1].1.eval);
        }
        if let Some((_, best)) = children.first() {
            assert_eq!(node.eval, best.eval.count_time().neg());
        }
        for (_, child) in children {
            check_consistent(child);
        }
    }
}

fn count_nodes(node: &Node) -> usize {
    1 + node
        .children
        .as_ref()
        .map(|c| c.iter().map(|(_, n)| count_nodes(n)).sum::<usize>())
        .unwrap_or(0)
}

fn sorted_moves(node: &Node) -> Vec<String> {
    let mut m: Vec<String> =
        node.children.as_ref().unwrap().iter().map(|(mv, _)| format!("{}", mv)).collect();
    m.sort();
    m
}

#[test]
fn step_count_matches_tree_growth() {
    let b = board("r1bqkbnr/pppp1ppp/2n5/4p3/4P3/5N2/PPPP1PPP/RNBQKB1R w KQkq - 2 3");
    let mut history = IntSet::default();
    let mut root = Node::new(&Position::of(&b), &mut history);
    assert_eq!(count_nodes(&root), 1);
    root.search(b.clone(), &mut history);
    let moves = sorted_moves(&root);
    for _ in 0..60 {
        let before = count_nodes(&root);
        let created = root.search(b.clone(), &mut history);
        assert_eq!(count_nodes(&root), before + created);
        assert_eq!(sorted_moves(&root), moves);
    }
}

#[test]
fn new_start_position_is_unexpanded_leaf() {
    let b = Board::default();
    let mut history = IntSet::default();
    let node = Node::new(&Position::of(&b), &mut history);
    assert!(node.children.is_none());
    assert_eq!(node.eval(), Eval::Value(evaluate(&Position::of(&b))));
    assert_eq!(node.depth(), 0);
    assert!(history.is_empty());
}

#[test]
fn checkmate_is_lost_now() {
    let b = board("rnb1kbnr/pppp1ppp/8/4p3/6Pq/5P2/PPPPP2P/RNBQKBNR w KQkq - 1 3");
    let mut history = IntSet::default();
    let node = Node::new(&Position::of(&b), &mut history);
    assert_eq!(node.eval, Eval::Lost(0));
    assert_eq!(node.children.as_ref().map(|c| c.len()), Some(0));
    history.insert(b.hash());
    history.insert(12345);
    let node = Node::new(&Position::of(&b), &mut history);
    assert_eq!(node.eval, Eval::Lost(0));
    assert_eq!(node.children.as_ref().map(|c| c.len()), Some(0));
    assert_eq!(history.len(), 2);
}

#[test]
fn repetition_and_dead_positions_are_draws() {
    let b = Board::default();
    let mut history = IntSet::default();
    history.insert(b.hash());
    let node = Node::new(&Position::of(&b), &mut history);
    assert_eq!(node.eval, Eval::Value(0));
    assert_eq!(node.children.as_ref().map(|c| c.len()), Some(0));

    let mut empty = IntSet::default();
    let knight = board("8/8/8/4k3/8/8/3NK3/8 w - - 0 1");
    let node = Node::new(&Position::of(&knight), &mut empty);
    assert_eq!(node.eval, Eval::Value(0));
    assert_eq!(node.children.as_ref().map(|c| c.len()), Some(0));

    let stalemate = board("7k/5Q2/6K1/8/8/8/8/8 b - - 0 1");
    let node = Node::new(&Position::of(&stalemate), &mut empty);
    assert_eq!(node.eval, Eval::Value(0));
    assert_eq!(node.children.as_ref().map(|c| c.len()), Some(0));

    // Two minor pieces are enough to go on.
    let two = board("8/8/8/4k3/8/8/2BNK3/8 w - - 0 1");
    let node = Node::new(&Position::of(&two), &mut empty);
    assert!(node.children.is_none());
}

#[test]
fn terminal_search_is_noop() {
    let b = board("rnb1kbnr/pppp1ppp/8/4p3/6Pq/5P2/PPPPP2P/RNBQKBNR w KQkq - 1 3");
    let mut history = IntSet::default();
    let mut node = Node::new(&Position::of(&b), &mut history);
    assert_eq!(node.search(b.clone(), &mut history), 0);
    assert_eq!(node.eval, Eval::Lost(0));
    assert_eq!(node.depth, 0);
}

#[test]
fn first_search_expands_every_move() {
    let b = Board::default();
    let mut history = IntSet::default();
    let mut root = Node::new(&Position::of(&b), &mut history);
    assert_eq!(root.search(b.clone(), &mut history), 20);
    assert_eq!(root.children.as_ref().unwrap().len(), 20);
    assert!(history.is_empty());
    check_consistent(&root);
}

#[test]
fn mate_in_one_is_found() {
    let b = board("6k1/5ppp/8/8/8/8/8/R5K1 w - - 0 1");
    let mut history = IntSet::default();
    let mut root = Node::new(&Position::of(&b), &mut history);
    root.search(b.clone(), &mut history);
    assert_eq!(root.eval, Eval::Won(1));
    let mut pv = Vec::new();
    root.get_pv(&mut pv);
    assert_eq!(pv, vec!["a1a8".parse::<Move>().unwrap()]);
}

#[test]
fn hundred_steps_keep_tree_consistent() {
    let b = Board::default();
    let mut history = IntSet::default();
    history.insert(777);
    history.insert(888);
    let before = history.clone();
    let mut root = Node::new(&Position::of(&b), &mut history);
    let mut nodes = 0;
    for step in 0..100 {
        let old_depth = root.depth();
        nodes += root.search(b.clone(), &mut history);
        assert_eq!(history, before);
        check_consistent(&root);
        assert!(root.depth() >= old_depth && root.depth() <= old_depth + 1);
        assert!(root.depth() <= step);
        let mut pv = Vec::new();
        root.get_pv(&mut pv);
        assert!(pv.len() <= root.depth() + 1);
    }
    assert!(nodes >= 20);
    assert!(root.depth() >= 1);
    let mut pv = Vec::new();
    root.get_pv(&mut pv);
    assert!(!pv.is_empty());
    let mut replay = b.clone();
    for mv in pv {
        assert!(replay.try_play(mv).is_ok());
    }
}

#[test]
fn repetition_on_search_path_is_draw() {
    // Kings shuffle: a line that comes back to the root position ends in a
    // draw because the root's hash is on the path.
    let b = board("k7/8/8/8/8/8/8/K6R w - - 0 1");
    let mut history = IntSet::default();
    let mut root = Node::new(&Position::of(&b), &mut history);
    for _ in 0..200 {
        root.search(b.clone(), &mut history);
    }
    assert!(history.is_empty());
    check_consistent(&root);
}

#[test]
fn exploration_index_in_range() {
    for len in 1..40usize {
        for _ in 0..50 {
            assert!(exploration_index(len) < len);
        }
    }
    assert_eq!(exploration_index(1), 0);
}
