use std::collections::HashMap;

use pap::editor::{edit_step, EditStep};
use pap::error::PapError;
use pap::paper::{Paper, Timestamp};
use pap::progress::Progress;
use pap::store::resolve_prefix;
use pap::view::PaperView;

fn paper(title: &str, progress: Progress) -> Paper {
    Paper::new(
        title.to_string(),
        String::new(),
        String::new(),
        progress,
        Vec::new(),
        HashMap::new(),
    )
}

fn stamped(title: &str, secs: i64, nanos: u32) -> Paper {
    let mut p = paper(title, Progress::I);
    p.last_changed = Some(Timestamp { secs, nanos });
    p
}

fn titles_in_order(v: &PaperView) -> Vec<String> {
    v.display_order().into_iter().map(|i| v.papers[i].title.clone()).collect()
}

#[test]
fn identity_of_known_digests() {
    assert_eq!(paper("", Progress::I).hash(), "e3b0c44298fc1c14");
    assert_eq!(paper("abc", Progress::I).hash(), "ba7816bf8f01cfea");
}

#[test]
fn identity_is_sixteen_lowercase_hex_digits() {
    let id = paper("Attention is all you need", Progress::II).hash();
    assert_eq!(id.len(), 16);
    assert!(id.chars().all(|c| c.is_ascii_digit() || ('a'..='f').contains(&c)));
}

#[test]
fn identity_ignores_everything_but_the_title() {
    let a = paper("Same title", Progress::I);
    let mut b = paper("Same title", Progress::IV);
    b.description = "other notes".to_string();
    b.tags.push("ml".to_string());
    b.refs.insert("cites".to_string(), vec!["x".to_string()]);
    assert_eq!(a.hash(), b.hash());
    assert_ne!(a.hash(), paper("Other title", Progress::I).hash());
}

#[test]
fn short_title_is_padded_to_width() {
    assert_eq!(paper("Hi", Progress::I).title(10), "Hi        ");
    assert_eq!(paper("Hi", Progress::I).title(10).chars().count(), 10);
}

#[test]
fn long_title_is_cut_with_ellipsis() {
    let t = paper("A very long title indeed", Progress::I).title(10);
    assert_eq!(t, "A very ...");
    assert_eq!(t.chars().count(), 10);
}

#[test]
fn title_of_exactly_the_room_is_padded() {
    assert_eq!(paper("Seven c", Progress::I).title(10), "Seven c   ");
    assert_eq!(paper("Eight ch", Progress::I).title(10), "Eight c...");
}

#[test]
fn title_counts_characters_not_bytes() {
    assert_eq!(paper("Über", Progress::I).title(8), "Über    ");
    assert_eq!(paper("Ünïcödé title", Progress::I).title(8), "Ünïcö...");
}

#[test]
fn parse_each_stage() {
    assert_eq!(Progress::parse("I").unwrap(), Progress::I);
    assert_eq!(Progress::parse("II").unwrap(), Progress::II);
    assert_eq!(Progress::parse("III").unwrap(), Progress::III);
    assert_eq!(Progress::parse("IV").unwrap(), Progress::IV);
    assert_eq!("III".parse::<Progress>().unwrap(), Progress::III);
}

#[test]
fn parse_rejects_unknown_tokens() {
    for t in ["", "V", "i", "IIII", "I ", "4"] {
        match Progress::parse(t) {
            Err(PapError::InvalidStage(s)) => assert_eq!(s, t),
            other => panic!("unexpected {:?}", other),
        }
    }
}

#[test]
fn mark_sets_any_stage() {
    let mut p = paper("Notes", Progress::IV);
    assert!(p.mark("II").is_ok());
    assert_eq!(p.progress, Progress::II);
    assert!(p.mark("III").is_ok());
    assert_eq!(p.progress, Progress::III);
    assert_eq!(p.title, "Notes");
}

#[test]
fn mark_with_bad_token_keeps_stage() {
    let mut p = paper("Notes", Progress::II);
    assert!(matches!(p.mark("done"), Err(PapError::InvalidStage(_))));
    assert_eq!(p.progress, Progress::II);
}

fn stored_ids() -> Vec<String> {
    vec![
        "abc1111111111111".to_string(),
        "abc2222222222222".to_string(),
        "xyz3333333333333".to_string(),
    ]
}

#[test]
fn ambiguous_prefix_lists_candidates() {
    match resolve_prefix(&stored_ids(), "abc") {
        Err(PapError::Ambiguous(c)) => {
            assert_eq!(c, vec!["abc1111111111111".to_string(), "abc2222222222222".to_string()])
        }
        other => panic!("unexpected {:?}", other),
    }
}

#[test]
fn unique_prefix_resolves() {
    assert_eq!(resolve_prefix(&stored_ids(), "xyz").unwrap(), "xyz3333333333333");
    assert_eq!(resolve_prefix(&stored_ids(), "abc2").unwrap(), "abc2222222222222");
}

#[test]
fn full_identity_bypasses_scan() {
    assert_eq!(resolve_prefix(&stored_ids(), "abc1111111111111").unwrap(), "abc1111111111111");
    assert_eq!(resolve_prefix(&Vec::new(), "fff0000000000000").unwrap(), "fff0000000000000");
}

#[test]
fn unknown_prefix_is_not_found() {
    match resolve_prefix(&stored_ids(), "q") {
        Err(PapError::NotFound(s)) => assert_eq!(s, "q"),
        other => panic!("unexpected {:?}", other),
    }
}

#[test]
fn empty_prefix_over_many_is_ambiguous() {
    assert!(matches!(resolve_prefix(&stored_ids(), ""), Err(PapError::Ambiguous(c)) if c.len() == 3));
}

#[test]
fn filter_keeps_only_close_titles() {
    let v = PaperView::complete_from(vec![
        paper("machine learning", Progress::I),
        paper("zzzz qqqq", Progress::I),
    ]);
    let above: Vec<bool> =
        v.papers.iter().map(|p| strsim::jaro("machine learning", &p.title) > 0.9).collect();
    let v = v.view(&above);
    assert_eq!(v.papers.len(), 1);
    assert_eq!(v.papers[0].title, "machine learning");
}

#[test]
fn filter_at_zero_keeps_related_records() {
    let v = PaperView::complete_from(vec![
        paper("machine learning", Progress::I),
        paper("deep learning", Progress::II),
    ]);
    let above: Vec<bool> =
        v.papers.iter().map(|p| strsim::jaro("learning", &p.title) > 0.0).collect();
    assert_eq!(v.view(&above).papers.len(), 2);
}

#[test]
fn filter_keeps_enumeration_order() {
    let v = PaperView::complete_from(vec![
        paper("a", Progress::I),
        paper("b", Progress::I),
        paper("c", Progress::I),
        paper("d", Progress::I),
    ]);
    let v = v.view(&vec![true, false, true, true]);
    let t: Vec<&str> = v.papers.iter().map(|p| p.title.as_str()).collect();
    assert_eq!(t, vec!["a", "c", "d"]);
}

#[test]
fn display_is_ascending_by_time() {
    let v = PaperView::complete_from(vec![
        stamped("third", 300, 0),
        stamped("first", 100, 0),
        stamped("second", 200, 5),
    ]);
    assert_eq!(titles_in_order(&v), vec!["first", "second", "third"]);
}

#[test]
fn display_puts_unstamped_first_and_keeps_ties() {
    let v = PaperView::complete_from(vec![
        stamped("late", 10, 1),
        paper("fresh", Progress::I),
        stamped("tie a", 10, 0),
        stamped("tie b", 10, 0),
        stamped("early", -5, 999),
    ]);
    assert_eq!(titles_in_order(&v), vec!["fresh", "early", "tie a", "tie b", "late"]);
}

#[test]
fn display_of_nothing_is_empty() {
    let v = PaperView::complete_from(Vec::new());
    assert!(v.display_order().is_empty());
    assert_eq!(v.render(5).len(), 2);
}

const ON: &str = "\x1b[44m    \x1b[0m ";
const OFF: &str = "     ";

fn row_of(p: &Paper, width: usize) -> String {
    let v = PaperView::complete_from(vec![Paper::new(
        p.title.clone(),
        String::new(),
        String::new(),
        p.progress,
        Vec::new(),
        HashMap::new(),
    )]);
    v.render(width)[2].clone()
}

#[test]
fn stage_three_shows_three_filled_segments() {
    let p = paper("Stage three", Progress::III);
    let row = row_of(&p, 80);
    let id = p.hash();
    let expected = format!(
        "\x1b[33m{}\x1b[0m {}{}{}{}{}",
        &id[..7],
        ON,
        ON,
        ON,
        OFF,
        p.title(52)
    );
    assert_eq!(row, expected);
    assert_eq!(row.matches(ON).count(), 3);
}

#[test]
fn stage_one_shows_one_filled_segment() {
    let p = paper("Stage one", Progress::I);
    let row = row_of(&p, 80);
    assert_eq!(row.matches(ON).count(), 1);
    assert!(row.contains(&format!("{}{}{}{}", ON, OFF, OFF, OFF)));
}

#[test]
fn stage_four_has_no_blank() {
    let p = paper("Done", Progress::IV);
    let row = row_of(&p, 80);
    assert_eq!(row.matches(ON).count(), 4);
}

#[test]
fn narrow_terminal_keeps_fifteen_title_columns() {
    let p = paper("A rather long paper title", Progress::II);
    let row = row_of(&p, 20);
    assert!(row.ends_with("A rather lon..."));
    let wide = row_of(&p, 100);
    assert!(wide.ends_with(&p.title(72)));
}

#[test]
fn render_header_and_rule() {
    let v = PaperView::complete_from(vec![
        stamped("b", 2, 0),
        stamped("a", 1, 0),
    ]);
    let lines = v.render(30);
    assert_eq!(lines.len(), 4);
    assert_eq!(lines[0], "hash    I    II   III  IV   title");
    assert_eq!(lines[1], "\u{23af}".repeat(30));
    assert!(lines[2].ends_with(&paper("a", Progress::I).title(15)));
    assert!(lines[3].ends_with(&paper("b", Progress::I).title(15)));
}

#[test]
fn loaded_records_kept_and_failures_reported() {
    let results = vec![
        Ok(paper("one", Progress::I)),
        Err(PapError::Decode("bad".to_string())),
        Ok(paper("two", Progress::II)),
        Err(PapError::NotFound("gone".to_string())),
    ];
    let (v, errs) = PaperView::from_loaded(results);
    let t: Vec<&str> = v.papers.iter().map(|p| p.title.as_str()).collect();
    assert_eq!(t, vec!["one", "two"]);
    assert_eq!(errs.len(), 2);
    assert!(matches!(&errs[0], PapError::Decode(m) if m == "bad"));
    assert!(matches!(&errs[1], PapError::NotFound(m) if m == "gone"));
}

#[test]
fn editing_steps() {
    assert_eq!(edit_step("a = 1", "a = 1", false), EditStep::Finish);
    assert_eq!(edit_step("a = 1", "a = 1", true), EditStep::Finish);
    assert_eq!(edit_step("a = 1", "a = 2", true), EditStep::Save);
    assert_eq!(edit_step("a = 1", "a = ", false), EditStep::Retry);
}

#[test]
fn from_str_accepts_exactly_the_four_stages() {
    assert_eq!("I".parse::<Progress>().unwrap(), Progress::I);
    assert_eq!("II".parse::<Progress>().unwrap(), Progress::II);
    assert_eq!("IV".parse::<Progress>().unwrap(), Progress::IV);
    for t in ["1", "iv", " I", "V", ""] {
        match t.parse::<Progress>() {
            Err(PapError::InvalidStage(s)) => assert_eq!(s, t),
            other => panic!("unexpected {:?}", other),
        }
    }
}
