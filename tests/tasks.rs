use tasky::command::{execute, Report, Request};
use tasky::listing::{decimal_text, format_row, list_lines};
use tasky::table::{AddError, EndOutcome, PickError, Task, TaskTable};
use tasky::text::{accept_name, confirms_reset, get_string, is_reset_phrase, is_white_space, trim};

fn words(ws: &[&str]) -> Vec<String> {
    ws.iter().map(|w| w.to_string()).collect()
}

fn task(id: u32, name: &str, completed: bool) -> Task {
    Task { id, name: name.to_string(), completed }
}

fn lines(t: &TaskTable) -> Vec<String> {
    list_lines(t)
}

#[test]
fn scenario_add_end_remove() {
    let mut t = TaskTable::new();
    assert_eq!(t.add("buy milk".to_string()), Ok(1));
    assert_eq!(lines(&t), vec!["ID | Name | Completed", "1 | buy milk | false"]);
    assert_eq!(t.end(1), EndOutcome::Completed);
    assert_eq!(lines(&t), vec!["ID | Name | Completed", "1 | buy milk | true"]);
    assert!(t.remove(1));
    assert_eq!(lines(&t), vec!["ID | Name | Completed"]);
}

#[test]
fn add_then_list_shows_one_new_row() {
    let mut t = TaskTable::new();
    t.add("first".to_string()).unwrap();
    let name = get_string(words(&["water", "the", "plants"])).unwrap();
    let id = t.add(name).unwrap();
    assert_eq!(id, 2);
    let l = lines(&t);
    assert_eq!(l.len(), 3);
    assert_eq!(l[1], "1 | first | false");
    assert_eq!(l[2], "2 | water the plants | false");
}

#[test]
fn ids_continue_after_the_largest() {
    let mut t = TaskTable::from_rows(vec![task(3, "a", false), task(7, "b", true)]).unwrap();
    assert_eq!(t.add("c".to_string()), Ok(8));
}

#[test]
fn add_fails_when_ids_run_out() {
    let mut t = TaskTable::from_rows(vec![task(u32::MAX, "last", false)]).unwrap();
    assert_eq!(t.add("more".to_string()), Err(AddError::IdsExhausted));
    assert_eq!(t.rows().len(), 1);
}

#[test]
fn from_rows_needs_increasing_positive_ids() {
    assert!(TaskTable::from_rows(vec![]).is_some());
    assert!(TaskTable::from_rows(vec![task(0, "zero", false)]).is_none());
    assert!(TaskTable::from_rows(vec![task(2, "a", false), task(2, "b", false)]).is_none());
    assert!(TaskTable::from_rows(vec![task(5, "a", false), task(4, "b", false)]).is_none());
}

#[test]
fn end_absent_id_changes_nothing() {
    let mut t = TaskTable::new();
    t.add("a".to_string()).unwrap();
    let before = lines(&t);
    assert_eq!(t.end(9), EndOutcome::NoSuchId);
    assert_eq!(lines(&t), before);
    let mut empty = TaskTable::new();
    assert_eq!(empty.end(1), EndOutcome::NoSuchId);
}

#[test]
fn end_twice_reports_success_both_times() {
    let mut t = TaskTable::new();
    t.add("a".to_string()).unwrap();
    t.add("b".to_string()).unwrap();
    assert_eq!(t.end(2), EndOutcome::Completed);
    let once = lines(&t);
    assert_eq!(t.end(2), EndOutcome::Completed);
    assert_eq!(lines(&t), once);
    assert_eq!(once[1], "1 | a | false");
    assert_eq!(once[2], "2 | b | true");
}

#[test]
fn remove_deletes_only_that_row() {
    let mut t = TaskTable::new();
    t.add("a".to_string()).unwrap();
    t.add("b".to_string()).unwrap();
    t.add("c".to_string()).unwrap();
    assert!(t.remove(2));
    assert_eq!(lines(&t), vec!["ID | Name | Completed", "1 | a | false", "3 | c | false"]);
    assert!(!t.remove(2));
    assert!(!t.remove(42));
    assert_eq!(lines(&t), vec!["ID | Name | Completed", "1 | a | false", "3 | c | false"]);
}

#[test]
fn reset_needs_the_exact_phrase() {
    assert!(confirms_reset("delete everything"));
    assert!(confirms_reset("  delete everything\n"));
    assert!(!confirms_reset("Delete Everything"));
    assert!(!confirms_reset("delete  everything"));
    assert!(!confirms_reset("delete"));
    assert!(!confirms_reset(""));
    assert!(is_reset_phrase("delete everything"));
    assert!(!is_reset_phrase("delete everything "));
}

#[test]
fn reset_through_execute() {
    let mut t = TaskTable::new();
    t.add("a".to_string()).unwrap();
    let r = execute(&mut t, Request::Reset("Delete Everything".to_string()));
    assert!(matches!(r, Report::ResetAborted));
    assert_eq!(t.rows().len(), 1);
    let r = execute(&mut t, Request::Reset("delete everything\n".to_string()));
    assert!(matches!(r, Report::ResetDone));
    assert_eq!(t.rows().len(), 0);
    assert_eq!(t.add("again".to_string()), Ok(1));
}

#[test]
fn random_picks_a_pending_task() {
    let mut t = TaskTable::new();
    t.add("a".to_string()).unwrap();
    t.add("b".to_string()).unwrap();
    t.add("c".to_string()).unwrap();
    t.end(1);
    t.end(3);
    for _ in 0..20 {
        let p = t.random().unwrap();
        assert_eq!(p.id, 2);
        assert_eq!(p.name, "b");
        assert!(!p.completed);
    }
}

#[test]
fn random_among_several_stays_pending() {
    let mut t = TaskTable::new();
    for n in ["a", "b", "c", "d"] {
        t.add(n.to_string()).unwrap();
    }
    t.end(2);
    for _ in 0..50 {
        let p = t.random().unwrap();
        assert!(p.id == 1 || p.id == 3 || p.id == 4);
    }
}

#[test]
fn random_fails_without_pending_tasks() {
    let mut t = TaskTable::new();
    assert_eq!(t.random().err(), Some(PickError::NoPendingTask));
    t.add("a".to_string()).unwrap();
    t.end(1);
    assert_eq!(t.random().err(), Some(PickError::NoPendingTask));
    let r = execute(&mut t, Request::Random);
    assert!(matches!(r, Report::PickFailed(PickError::NoPendingTask)));
}

#[test]
fn pick_at_indexes_pending_tasks() {
    let mut t = TaskTable::new();
    for n in ["a", "b", "c"] {
        t.add(n.to_string()).unwrap();
    }
    t.end(2);
    assert_eq!(t.pick_at(0).unwrap().id, 1);
    assert_eq!(t.pick_at(1).unwrap().id, 3);
    assert_eq!(t.pick_at(2).err(), Some(PickError::NoPendingTask));
    assert_eq!(t.pending_tasks().len(), 2);
}

#[test]
fn get_string_joins_words() {
    assert_eq!(get_string(words(&["buy", "milk"])), Some("buy milk".to_string()));
    assert_eq!(get_string(words(&["one"])), Some("one".to_string()));
    assert_eq!(get_string(words(&["a", "", "b"])), Some("a  b".to_string()));
    assert_eq!(get_string(vec![]), None);
}

#[test]
fn accept_name_trims_and_rejects_blank() {
    assert_eq!(accept_name("  buy milk \n"), Some("buy milk".to_string()));
    assert_eq!(accept_name("   \n"), None);
    assert_eq!(accept_name(""), None);
}

#[test]
fn trim_strips_unicode_white_space() {
    assert_eq!(trim(" \t a b \r\n"), "a b");
    assert_eq!(trim("\u{3000}x\u{a0}"), "x");
    assert_eq!(trim("   "), "");
    assert_eq!(trim("abc"), "abc");
    assert!(is_white_space('\u{2028}'));
    assert!(!is_white_space('a'));
    assert!(!is_white_space('\u{200b}'));
}

#[test]
fn decimal_and_row_formatting() {
    assert_eq!(decimal_text(0), "0");
    assert_eq!(decimal_text(1234), "1234");
    assert_eq!(decimal_text(u32::MAX), "4294967295");
    assert_eq!(format_row(12, "x y", true), "12 | x y | true");
    assert_eq!(format_row(3, "", false), "3 |  | false");
}

#[test]
fn execute_reports_each_command() {
    let mut t = TaskTable::new();
    match execute(&mut t, Request::Add("buy milk".to_string())) {
        Report::Added(id, name) => {
            assert_eq!(id, 1);
            assert_eq!(name, "buy milk");
        }
        _ => panic!("expected Added"),
    }
    assert!(matches!(execute(&mut t, Request::End(1)), Report::Ended(1, EndOutcome::Completed)));
    assert!(matches!(execute(&mut t, Request::End(5)), Report::Ended(5, EndOutcome::NoSuchId)));
    match execute(&mut t, Request::List) {
        Report::Listed(l) => assert_eq!(l, vec!["ID | Name | Completed", "1 | buy milk | true"]),
        _ => panic!("expected Listed"),
    }
    assert!(matches!(execute(&mut t, Request::Sub(1, words(&["x"]))), Report::NotSupported));
    assert!(matches!(execute(&mut t, Request::Remove(1)), Report::Removed(1, true)));
    assert!(matches!(execute(&mut t, Request::Remove(1)), Report::Removed(1, false)));
}
