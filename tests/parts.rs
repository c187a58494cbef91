use potatoboard::command::admin_list;
use potatoboard::guild::is_admin;
use potatoboard::guild::GuildState;
use potatoboard::leaderboard::{leaderboard, rank_rows, CountTable};
use potatoboard::text::{chars_of, parse_u64, push_decimal, split_words, IntError};

fn chars(s: &str) -> Vec<char> {
    s.chars().collect()
}

#[test]
fn parse_accepts_plus_and_digits() {
    assert_eq!(parse_u64(&chars("42")), Ok(42));
    assert_eq!(parse_u64(&chars("+12")), Ok(12));
    assert_eq!(parse_u64(&chars("18446744073709551615")), Ok(u64::MAX));
}

#[test]
fn parse_errors() {
    assert_eq!(parse_u64(&chars("")), Err(IntError::Empty));
    assert_eq!(parse_u64(&chars("+")), Err(IntError::InvalidDigit));
    assert_eq!(parse_u64(&chars("-1")), Err(IntError::InvalidDigit));
    assert_eq!(parse_u64(&chars("1a")), Err(IntError::InvalidDigit));
    assert_eq!(parse_u64(&chars("18446744073709551616")), Err(IntError::TooLarge));
}

#[test]
fn decimal_text() {
    let mut s = String::from("n=");
    push_decimal(&mut s, 0);
    assert_eq!(s, "n=0");
    let mut s = String::new();
    push_decimal(&mut s, 1234567890123);
    assert_eq!(s, "1234567890123");
}

#[test]
fn words_split_on_any_whitespace() {
    let w = split_words(&chars_of("  !!\treceivers \u{3000} 2\n"));
    let w: Vec<String> = w.iter().map(|c| c.iter().collect()).collect();
    assert_eq!(w, vec!["!!", "receivers", "2"]);
    assert!(split_words(&chars_of("   ")).is_empty());
}

#[test]
fn count_table_keeps_first_order() {
    let mut t = CountTable::new();
    t.set_count(3, 1);
    t.set_count(1, 4);
    t.set_count(3, 9);
    assert_eq!(t.rows(), &vec![(3, 9), (1, 4)]);
    assert_eq!(t.count_of(3), 9);
    assert_eq!(t.count_of(8), 0);
    assert_eq!(t.len(), 2);
}

#[test]
fn ranking_is_stable_descending() {
    let rows = vec![(1, 5), (2, 10), (3, 10), (4, 0), (5, 5)];
    assert_eq!(rank_rows(&rows), vec![(2, 10), (3, 10), (1, 5), (5, 5), (4, 0)]);
}

#[test]
fn empty_board() {
    let t = CountTable::new();
    let lb = leaderboard(&t, 1, 0, 10);
    assert!(lb.page.is_empty());
    assert_eq!(lb.asker, None);
    assert_eq!(lb.total_entries, 0);
    assert_eq!(lb.total_pages, 1);
}

#[test]
fn exactly_one_full_page_gives_two_pages() {
    let mut t = CountTable::new();
    for id in 0..10u64 {
        t.set_count(id, id);
    }
    let lb = leaderboard(&t, 0, 1, 10);
    assert_eq!(lb.total_pages, 2);
    assert!(lb.page.is_empty());
    assert_eq!(lb.asker, Some((10, 0)));
    let first = leaderboard(&t, 0, 0, 10);
    assert_eq!(first.page.len(), 10);
    assert_eq!(first.page[0].id, 9);
}

#[test]
fn huge_page_index_is_empty() {
    let mut t = CountTable::new();
    t.set_count(1, 1);
    let lb = leaderboard(&t, 1, usize::MAX, 10);
    assert!(lb.page.is_empty());
    assert_eq!(lb.asker, Some((1, 1)));
}

#[test]
fn admin_by_list_or_role() {
    let mut g = GuildState::new("!!");
    g.config.admins.push(4);
    assert!(is_admin(&g.config, 4, false));
    assert!(is_admin(&g.config, 5, true));
    assert!(!is_admin(&g.config, 5, false));
}

#[test]
fn admin_list_text() {
    let tags = vec![String::from("a#0001"), String::from("b#0002")];
    assert_eq!(admin_list(&tags), "Admins:\n- a#0001\n- b#0002");
    assert_eq!(admin_list(&Vec::new()), "Admins:");
}
