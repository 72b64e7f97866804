use bops::topbops::{ItemMetadata, List, ListMode};
use bops::topbops_wasm::base::{IframeCompare, IframeCompareMsg};
use bops::topbops_wasm::bootstrap::{Accordion, AccordionMsg, Collapse, CollapseMsg};
use bops::topbops_wasm::random::{mode_from_query, Match, Mode};
use bops::topbops_wasm::tournament_page::{
    load_fields, Action, ComponentState, Msg, Tournament, TournamentState, ViewState,
};

fn item(id: &str, score: i32) -> ItemMetadata {
    let mut i = ItemMetadata::new(id.to_owned(), id.to_uppercase(), None);
    i.score = score;
    i
}

fn list(scores: &[i32]) -> List {
    List {
        id: String::from("list"),
        user_id: String::from("demo"),
        name: String::from("Songs"),
        items: scores
            .iter()
            .enumerate()
            .map(|(k, s)| item(&format!("i{k}"), *s))
            .collect(),
        mode: ListMode::User,
        query: String::from("SELECT name, user_score FROM item"),
    }
}

#[test]
fn random_matches_pick_two_items() {
    assert_eq!(mode_from_query(Some("rounds")), Mode::Round);
    assert_eq!(mode_from_query(Some("other")), Mode::Match);
    assert_eq!(mode_from_query(None), Mode::Match);

    let mut m = Match::new(Mode::Match);
    for _ in 0..20 {
        m.load_random(5);
        let (l, r) = m.data.unwrap();
        assert!(l < 5 && r < 5 && l != r);
        assert!(m.random_queue.is_empty());
    }
}

#[test]
fn rounds_use_every_item_once() {
    let mut m = Match::new(Mode::Round);
    let mut seen = Vec::new();
    for _ in 0..3 {
        m.load_random(6);
        let (l, r) = m.data.unwrap();
        seen.push(l);
        seen.push(r);
    }
    seen.sort();
    assert_eq!(seen, vec![0, 1, 2, 3, 4, 5]);
    assert!(m.random_queue.is_empty());
}

#[test]
fn tournament_loads_in_seed_order() {
    let mut page = Tournament::new();
    assert!(matches!(page.state, ComponentState::Fetching));
    let (redraw, action) = page.update(Msg::Load(false, list(&[1400, 1600, 1500])));
    assert!(redraw);
    assert_eq!(action, Action::Nothing);
    let fields = match &page.state {
        ComponentState::Success(f) => f,
        ComponentState::Fetching => panic!("not loaded"),
    };
    assert_eq!(fields.title, "Songs - Tournament");
    assert_eq!(fields.state, TournamentState::Tournament);
    assert_eq!(fields.view_state, ViewState::Tournament);
    assert_eq!(fields.previous_ranks.len(), 3);
    // Three entrants: the best seed waits in the second round.
    let entrants: Vec<Option<usize>> = fields
        .bracket
        .data
        .iter()
        .map(|n| n.as_ref().filter(|n| !n.disabled).map(|n| n.item))
        .collect();
    assert_eq!(
        entrants,
        vec![None, Some(1), None, None, Some(0), None, Some(2)]
    );
}

#[test]
fn tournament_updates_and_views() {
    let mut page = Tournament::new();
    page.update(Msg::Load(true, list(&[1500, 1500])));
    let (i, _) = match &page.state {
        ComponentState::Success(f) => {
            assert_eq!(f.title, "Songs - Random Tournament");
            f.bracket.next_match().unwrap()
        }
        ComponentState::Fetching => panic!("not loaded"),
    };
    let (_, action) = page.update(Msg::Update(i));
    match action {
        Action::UpdateStats(w, l) => assert_ne!(w, l),
        Action::Nothing => panic!("no match was decided"),
    }
    page.update(Msg::Toggle);
    page.update(Msg::SelectView(Some(String::from("List View"))));
    match &page.state {
        ComponentState::Success(f) => {
            assert_eq!(f.state, TournamentState::Match);
            assert_eq!(f.view_state, ViewState::List);
            assert!(f.bracket.winner().is_some());
        }
        ComponentState::Fetching => panic!("not loaded"),
    }
    page.update(Msg::Reset);
    match &page.state {
        ComponentState::Success(f) => assert!(f.bracket.winner().is_none()),
        ComponentState::Fetching => panic!("not loaded"),
    }
}

#[test]
fn fields_keep_previous_ranks() {
    let mut l = list(&[1500, 1500]);
    l.items[1].rank = Some(2);
    let f = load_fields(false, l, vec![1, 0]);
    assert_eq!(f.previous_ranks[1], (String::from("i1"), Some(2)));
    assert_eq!(f.bracket.data[0].as_ref().unwrap().item, 1);
}

#[test]
fn widgets_toggle() {
    let mut c = IframeCompare::new();
    assert_eq!(c.tabs(), ("nav-link active", "nav-link", false));
    assert!(c.update(IframeCompareMsg::Right));
    assert_eq!(c.tabs(), ("nav-link", "nav-link active", true));

    let mut a = Accordion::new();
    assert_eq!(a.classes(None), ("accordion-button collapsed", "accordion-collapse collapse"));
    a.update(AccordionMsg::Toggle);
    assert_eq!(a.classes(None), ("accordion-button", "accordion-collapse collapse show"));
    assert_eq!(a.classes(Some(true)).0, "accordion-button collapsed");

    let mut b = Collapse::new(Some(false));
    assert_eq!(b.body_class(None), "collapse show");
    b.update(CollapseMsg::Toggle);
    assert_eq!(b.body_class(None), "collapse");
    assert_eq!(Collapse::new(None).body_class(Some(false)), "collapse show");
}
