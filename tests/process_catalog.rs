use kill_timer::catalog::{filter_entries, find_name, sort_by_name, Catalog, ProcessEntry};

fn entries(list: &[(u32, &str)]) -> Vec<ProcessEntry> {
    list.iter().map(|(id, name)| ProcessEntry::new(*id, name)).collect()
}

fn pairs(list: &[ProcessEntry]) -> Vec<(u32, String)> {
    list.iter().map(|e| (e.id, e.name.iter().collect())).collect()
}

fn cv(s: &str) -> Vec<char> {
    s.chars().collect()
}

#[test]
fn sort_is_ordinal_and_stable() {
    let sorted = sort_by_name(&entries(&[(1, "b"), (2, "a"), (3, "b"), (4, "A"), (5, "a")]));
    assert_eq!(
        pairs(&sorted),
        vec![
            (4, "A".to_string()),
            (2, "a".to_string()),
            (5, "a".to_string()),
            (1, "b".to_string()),
            (3, "b".to_string())
        ]
    );
    assert!(sort_by_name(&Vec::new()).is_empty());
}

#[test]
fn filter_is_case_insensitive_and_keeps_order() {
    let all = entries(&[(1, "Firefox"), (2, "bash"), (3, "firewalld"), (4, "FIREFOX-bin")]);
    let kept = filter_entries(&all, &cv("FIRE"));
    assert_eq!(pairs(&kept).iter().map(|p| p.0).collect::<Vec<_>>(), vec![1, 3, 4]);
    let kept = filter_entries(&all, &cv("fox"));
    assert_eq!(pairs(&kept).iter().map(|p| p.0).collect::<Vec<_>>(), vec![1, 4]);
    assert_eq!(filter_entries(&all, &cv("")).len(), 4);
    assert!(filter_entries(&all, &cv("zsh")).is_empty());
}

#[test]
fn query_narrows_and_clamps_selection() {
    let mut c = Catalog::new();
    c.refresh(&entries(&[(1, "p1"), (2, "p2"), (3, "p3")]));
    assert_eq!(c.selected, Some(0));
    c.next();
    c.next();
    assert_eq!(c.selected, Some(2));
    c.set_query(cv("p2"));
    assert_eq!(pairs(&c.filtered), vec![(2, "p2".to_string())]);
    assert_eq!(c.selected, Some(0));
    assert_eq!(c.selected_id(), Some(2));
    c.set_query(cv(""));
    assert_eq!(c.filtered.len(), 3);
    assert_eq!(c.selected, Some(0));
}

#[test]
fn empty_match_keeps_index_zero() {
    let mut c = Catalog::new();
    c.refresh(&entries(&[(1, "p1"), (2, "p2")]));
    c.set_query(cv("nothing"));
    assert!(c.filtered.is_empty());
    assert_eq!(c.selected, Some(0));
    assert_eq!(c.selected_id(), None);
}

#[test]
fn navigation_wraps_around() {
    let mut c = Catalog::new();
    c.refresh(&entries(&[(1, "p1"), (2, "p2"), (3, "p3")]));
    c.previous();
    assert_eq!(c.selected, Some(2));
    c.next();
    assert_eq!(c.selected, Some(0));
    c.next();
    assert_eq!(c.selected, Some(1));
    c.previous();
    assert_eq!(c.selected, Some(0));
}

#[test]
fn navigation_on_one_entry_stays() {
    let mut c = Catalog::new();
    c.refresh(&entries(&[(9, "only")]));
    c.next();
    assert_eq!(c.selected, Some(0));
    c.previous();
    assert_eq!(c.selected, Some(0));
}

#[test]
fn refresh_sorts_and_reapplies_query() {
    let mut c = Catalog::new();
    c.set_query(cv("SH"));
    c.refresh(&entries(&[(5, "zsh"), (6, "bash"), (7, "vim")]));
    assert_eq!(pairs(&c.all).iter().map(|p| p.0).collect::<Vec<_>>(), vec![6, 7, 5]);
    assert_eq!(pairs(&c.filtered).iter().map(|p| p.0).collect::<Vec<_>>(), vec![6, 5]);
    assert_eq!(c.selected, Some(0));
}

#[test]
fn name_lookup_takes_first_match() {
    let all = entries(&[(1, "a"), (2, "b"), (2, "c")]);
    assert_eq!(find_name(&all, 2), Some(cv("b")));
    assert_eq!(find_name(&all, 3), None);
}
