use bops::topbops::ItemMetadata;
use bops::topbops_wasm::tournament::{interleave, Interleave, Node, TournamentBracket};

fn layout(n: usize) -> Vec<Option<(usize, bool)>> {
    let items: Vec<usize> = (1..n + 1).collect();
    TournamentBracket::new(items, 0)
        .data
        .into_iter()
        .map(|n| n.map(|Node { item, disabled, .. }| (item, disabled)))
        .collect()
}

#[test]
fn test_generate_tournament() {
    for (input, output) in [
        (2, vec![Some((1, false)), Some((0, true)), Some((2, false))]),
        (
            3,
            vec![
                None,
                Some((1, false)),
                None,
                Some((0, true)),
                Some((3, false)),
                Some((0, true)),
                Some((2, false)),
            ],
        ),
        (
            4,
            vec![
                Some((1, false)),
                Some((0, true)),
                Some((4, false)),
                Some((0, true)),
                Some((3, false)),
                Some((0, true)),
                Some((2, false)),
            ],
        ),
        (
            5,
            vec![
                None,
                Some((1, false)),
                None,
                Some((0, true)),
                Some((5, false)),
                Some((0, true)),
                Some((4, false)),
                Some((0, true)),
                None,
                Some((3, false)),
                None,
                Some((0, true)),
                None,
                Some((2, false)),
                None,
            ],
        ),
        (
            7,
            vec![
                None,
                Some((1, false)),
                None,
                Some((0, true)),
                Some((5, false)),
                Some((0, true)),
                Some((4, false)),
                Some((0, true)),
                Some((3, false)),
                Some((0, true)),
                Some((6, false)),
                Some((0, true)),
                Some((7, false)),
                Some((0, true)),
                Some((2, false)),
            ],
        ),
        (
            8,
            vec![
                Some((1, false)),
                Some((0, true)),
                Some((8, false)),
                Some((0, true)),
                Some((5, false)),
                Some((0, true)),
                Some((4, false)),
                Some((0, true)),
                Some((3, false)),
                Some((0, true)),
                Some((6, false)),
                Some((0, true)),
                Some((7, false)),
                Some((0, true)),
                Some((2, false)),
            ],
        ),
        (
            12,
            vec![
                None,
                Some((1, false)),
                None,
                Some((0, true)),
                Some((9, false)),
                Some((0, true)),
                Some((8, false)),
                Some((0, true)),
                Some((5, false)),
                Some((0, true)),
                Some((12, false)),
                Some((0, true)),
                None,
                Some((4, false)),
                None,
                Some((0, true)),
                None,
                Some((3, false)),
                None,
                Some((0, true)),
                Some((11, false)),
                Some((0, true)),
                Some((6, false)),
                Some((0, true)),
                Some((7, false)),
                Some((0, true)),
                Some((10, false)),
                Some((0, true)),
                None,
                Some((2, false)),
                None,
            ],
        ),
        (
            32,
            vec![
                Some((1, false)),
                Some((0, true)),
                Some((32, false)),
                Some((0, true)),
                Some((17, false)),
                Some((0, true)),
                Some((16, false)),
                Some((0, true)),
                Some((9, false)),
                Some((0, true)),
                Some((24, false)),
                Some((0, true)),
                Some((25, false)),
                Some((0, true)),
                Some((8, false)),
                Some((0, true)),
                Some((5, false)),
                Some((0, true)),
                Some((28, false)),
                Some((0, true)),
                Some((21, false)),
                Some((0, true)),
                Some((12, false)),
                Some((0, true)),
                Some((13, false)),
                Some((0, true)),
                Some((20, false)),
                Some((0, true)),
                Some((29, false)),
                Some((0, true)),
                Some((4, false)),
                Some((0, true)),
                Some((3, false)),
                Some((0, true)),
                Some((30, false)),
                Some((0, true)),
                Some((19, false)),
                Some((0, true)),
                Some((14, false)),
                Some((0, true)),
                Some((11, false)),
                Some((0, true)),
                Some((22, false)),
                Some((0, true)),
                Some((27, false)),
                Some((0, true)),
                Some((6, false)),
                Some((0, true)),
                Some((7, false)),
                Some((0, true)),
                Some((26, false)),
                Some((0, true)),
                Some((23, false)),
                Some((0, true)),
                Some((10, false)),
                Some((0, true)),
                Some((15, false)),
                Some((0, true)),
                Some((18, false)),
                Some((0, true)),
                Some((31, false)),
                Some((0, true)),
                Some((2, false)),
            ],
        ),
    ] {
        assert_eq!(layout(input), output);
    }
}

fn lut(n: usize) -> Vec<ItemMetadata> {
    (0..n)
        .map(|i| ItemMetadata::new(format!("id{i}"), format!("item {i}"), None))
        .collect()
}

#[test]
fn bracket_plays_to_a_single_winner() {
    let mut bracket = TournamentBracket::new(vec![0usize, 1, 2, 3], usize::MAX);
    let mut items = lut(4);
    assert_eq!(bracket.winner(), &None);
    let mut played = 0;
    while let Some((i, _)) = bracket.next_match() {
        assert_eq!(bracket.winner(), &None);
        assert!(bracket.update(i, &mut items).is_some());
        played += 1;
        // The winner is known once the last place but the first is taken.
        assert_eq!(bracket.winner().is_some(), bracket.finished_index == 0);
    }
    assert_eq!(played, 3);
    // The entrant offered first wins each match, so the top seed wins.
    assert_eq!(bracket.winner(), &Some(0));
    assert_eq!(items[0].rank, Some(1));
    assert!(items.iter().all(|i| i.rank.is_some()));
    assert!(items[1..].iter().all(|i| i.rank != Some(1)));
    assert!(bracket.finished.iter().all(|f| f.is_some()));
}

#[test]
fn update_on_a_decided_node_changes_nothing() {
    let mut bracket = TournamentBracket::new(vec![0usize, 1], usize::MAX);
    let mut items = lut(2);
    let (i, p) = bracket.next_match().unwrap();
    assert_eq!(bracket.update(i, &mut items), Some((0, 1)));
    let before = bracket.data.clone();
    assert_eq!(bracket.update(p, &mut items), None);
    assert_eq!(bracket.data, before);
    assert_eq!(bracket.next_match(), None);
    assert_eq!(bracket.winner(), &Some(0));
    // A decided node needs no items to answer with nothing.
    let mut none: Vec<ItemMetadata> = Vec::new();
    assert_eq!(bracket.update(i, &mut none), None);
    assert!(none.is_empty());
    assert_eq!(bracket.data, before);
}

#[test]
fn reset_restores_the_start() {
    let mut bracket = TournamentBracket::new(vec![0usize, 1, 2], usize::MAX);
    let start = bracket.data.clone();
    let mut items = lut(3);
    let (i, _) = bracket.next_match().unwrap();
    bracket.update(i, &mut items).unwrap();
    assert_ne!(bracket.data, start);
    bracket.reset();
    assert_eq!(bracket.data, start);
    assert_eq!(bracket.finished, vec![None, None, None]);
    assert_eq!(bracket.winner(), &None);
}

#[test]
fn interleave_negates_and_alternates() {
    let mut src = vec![1, 2, 3];
    let mut dst = vec![10, 20];
    interleave(&mut src, &mut dst);
    assert!(src.is_empty());
    assert_eq!(dst, vec![-1, 10, -2, 20, -3]);
}

#[test]
fn interleave_iterator_alternates() {
    let mut it = Interleave::new(vec![1, 2], vec![7]);
    assert_eq!(it.size_hint(), (3, Some(4)));
    assert_eq!(it.next(), Some(1));
    assert_eq!(it.next(), Some(7));
    assert_eq!(it.next(), Some(2));
    assert_eq!(it.next(), None);
}

#[test]
fn every_field_size_plays_to_a_winner() {
    for n in 2..=9usize {
        let mut bracket = TournamentBracket::new((0..n).collect::<Vec<usize>>(), usize::MAX);
        let mut items = lut(n);
        let mut played = 0;
        while let Some((i, _)) = bracket.next_match() {
            assert_eq!(bracket.winner(), &None);
            assert!(bracket.update(i, &mut items).is_some());
            played += 1;
        }
        assert_eq!(played, n - 1);
        assert!(bracket.winner().is_some());
        assert!(bracket.finished.iter().all(|f| f.is_some()));
        // The results hold every entrant once, the winner first.
        let mut placed: Vec<usize> = bracket.finished.iter().map(|f| f.unwrap()).collect();
        assert_eq!(Some(placed[0]), *bracket.winner());
        assert_eq!(items[placed[0]].rank, Some(1));
        placed.sort();
        assert_eq!(placed, (0..n).collect::<Vec<usize>>());
    }
}
