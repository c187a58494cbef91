use potatoboard::command::{arg_error_message, ArgError, Board, Outcome, Reply, ADMIN_HELP, HELP};
use potatoboard::guild::GuildState;
use potatoboard::reaction::Reaction;
use potatoboard::store::GuildStore;
use potatoboard::text::IntError;

const BOT: u64 = 999;

fn text(r: &Reply) -> String {
    match r {
        Reply::Text(s) => s.clone(),
        _ => panic!("expected a plain text reply"),
    }
}

fn quiet(r: &Reply) -> String {
    match r {
        Reply::Quiet(s) => s.clone(),
        _ => panic!("expected a quiet reply"),
    }
}

fn run(state: &mut GuildState, author: u64, admin: bool, line: &str) -> Outcome {
    state.dispatch(author, BOT, admin, line).expect("the line is a command")
}

#[test]
fn help_for_non_admin_has_no_admin_block() {
    let mut g = GuildState::new("!!");
    let o = run(&mut g, 1, false, "!! help");
    assert_eq!(o.replies.len(), 1);
    assert_eq!(text(&o.replies[0]), HELP);
    assert!(!o.save_config);
    assert!(!o.save_counts);
}

#[test]
fn help_for_admin_adds_admin_block_and_saves_config() {
    let mut g = GuildState::new("!!");
    let o = run(&mut g, 1, true, "!! help");
    assert_eq!(o.replies.len(), 2);
    assert_eq!(text(&o.replies[0]), HELP);
    assert_eq!(text(&o.replies[1]), ADMIN_HELP);
    assert!(o.save_config);
}

#[test]
fn trigger_glued_to_command_is_one_word() {
    let mut g = GuildState::new("!!");
    assert!(g.dispatch(1, BOT, false, "!!help").is_none());
}

#[test]
fn messages_without_trigger_or_from_bot_are_ignored() {
    let mut g = GuildState::new("!!");
    assert!(g.dispatch(1, BOT, true, "hello there").is_none());
    assert!(g.dispatch(BOT, BOT, true, "!! blacklist 5").is_none());
    assert!(g.dispatch(1, BOT, true, "!!").is_none());
    assert_eq!(g.config.blacklist.len(), 0);
}

#[test]
fn receivers_ties_keep_table_order() {
    let mut g = GuildState::new("!!");
    g.received.set_count(1, 5);
    g.received.set_count(2, 10);
    g.received.set_count(3, 10);
    let o = run(&mut g, 1, false, "!! receivers");
    assert_eq!(o.replies.len(), 1);
    match &o.replies[0] {
        Reply::Board(b) => {
            assert_eq!(b.board, Board::Receivers);
            let ids: Vec<u64> = b.view.page.iter().map(|p| p.id).collect();
            let places: Vec<usize> = b.view.page.iter().map(|p| p.place).collect();
            let counts: Vec<u64> = b.view.page.iter().map(|p| p.count).collect();
            assert_eq!(ids, vec![2, 3, 1]);
            assert_eq!(places, vec![1, 2, 3]);
            assert_eq!(counts, vec![10, 10, 5]);
            assert_eq!(b.view.total_pages, 1);
            assert_eq!(b.view.total_entries, 3);
            assert_eq!(b.view.asker, Some((3, 5)));
            assert_eq!(b.title(), "Leaderboard - Taters received");
            assert_eq!(
                b.description(),
                "\u{1F3C5} 1: <@2> has received 10x taters\n\u{1F948} 2: <@3> has received 10x taters\n\u{1F949} 3: <@1> has received 5x taters\n"
            );
            assert_eq!(b.footer(), "Your place: #3/3 with 5x \u{1F954} | Page 1/1");
        },
        _ => panic!("expected a board"),
    }
}

#[test]
fn givers_board_and_unknown_asker() {
    let mut g = GuildState::new("!!");
    g.given.set_count(7, 2);
    let o = run(&mut g, 8, false, "!! givers 0");
    match &o.replies[0] {
        Reply::Board(b) => {
            assert_eq!(b.title(), "Leaderboard - Taters given");
            assert_eq!(b.view.asker, None);
            assert_eq!(b.footer(), "Your place: #?/1 with ?x \u{1F954} | Page 1/1");
        },
        _ => panic!("expected a board"),
    }
}

#[test]
fn asker_place_does_not_depend_on_page() {
    let mut g = GuildState::new("!!");
    for id in 0..25u64 {
        g.received.set_count(id, 100 - id);
    }
    let first = run(&mut g, 17, false, "!! receivers");
    let second = run(&mut g, 17, false, "!! receivers 1");
    let far = run(&mut g, 17, false, "!! receivers 9");
    let places: Vec<Option<(usize, u64)>> = [&first, &second, &far]
        .iter()
        .map(|o| match &o.replies[0] {
            Reply::Board(b) => b.view.asker,
            _ => panic!("expected a board"),
        })
        .collect();
    assert_eq!(places, vec![Some((18, 83)); 3]);
    match &second.replies[0] {
        Reply::Board(b) => {
            assert_eq!(b.view.page.len(), 10);
            assert_eq!(b.view.page[0].place, 11);
            assert_eq!(b.view.page[0].id, 10);
            assert_eq!(b.view.total_pages, 3);
        },
        _ => panic!("expected a board"),
    }
    match &far.replies[0] {
        Reply::Board(b) => assert!(b.view.page.is_empty()),
        _ => panic!("expected a board"),
    }
}

#[test]
fn unreadable_page_means_first_page() {
    let mut g = GuildState::new("!!");
    g.received.set_count(4, 1);
    let o = run(&mut g, 4, false, "!! receivers soon");
    match &o.replies[0] {
        Reply::Board(b) => {
            assert_eq!(b.page_index, 0);
            assert_eq!(b.view.page.len(), 1);
        },
        _ => panic!("expected a board"),
    }
}

#[test]
fn bad_threshold_is_refused_without_saving() {
    let mut g = GuildState::new("!!");
    let o = run(&mut g, 1, true, "!! set_threshold abc");
    assert_eq!(o.replies.len(), 1);
    assert_eq!(text(&o.replies[0]), "An error occured: \ninvalid digit found in string");
    assert_eq!(g.config.threshold, 5);
    assert!(!o.save_config);
    assert!(!o.save_counts);
}

#[test]
fn threshold_is_set() {
    let mut g = GuildState::new("!!");
    let o = run(&mut g, 1, true, "!! set_threshold 12");
    assert_eq!(text(&o.replies[0]), "Threshold changed to 12");
    assert_eq!(g.config.threshold, 12);
    assert!(o.save_config);
    assert!(!o.save_counts);
}

#[test]
fn threshold_too_large_is_refused() {
    let mut g = GuildState::new("!!");
    let o = run(&mut g, 1, true, "!! set_threshold 18446744073709551616");
    assert_eq!(text(&o.replies[0]), "An error occured: \nnumber too large to fit in target type");
    assert_eq!(g.config.threshold, 5);
}

#[test]
fn non_admin_blacklist_is_unknown() {
    let mut g = GuildState::new("!!");
    let o = run(&mut g, 1, false, "!! blacklist 123");
    assert_eq!(o.replies.len(), 1);
    assert_eq!(quiet(&o.replies[0]), "Unknown command: blacklist");
    assert!(g.config.blacklist.is_empty());
    assert!(!o.save_config);
}

#[test]
fn non_admin_gets_same_reply_as_unknown_name() {
    let mut g = GuildState::new("!!");
    let refused = run(&mut g, 1, false, "!! set_threshold 7");
    let unknown = run(&mut g, 1, false, "!! frobnicate 7");
    assert_eq!(quiet(&refused.replies[0]), "Unknown command: set_threshold");
    assert_eq!(quiet(&unknown.replies[0]), "Unknown command: frobnicate");
    assert_eq!(g.config.threshold, 5);
}

#[test]
fn listed_admin_is_admin_without_role() {
    let mut g = GuildState::new("!!");
    run(&mut g, 1, true, "!! admin 42");
    let o = run(&mut g, 42, false, "!! set_threshold 3");
    assert_eq!(text(&o.replies[0]), "Threshold changed to 3");
    assert!(o.save_config);
}

#[test]
fn blacklist_twice_reports_already() {
    let mut g = GuildState::new("!!");
    let first = run(&mut g, 1, true, "!! blacklist 123");
    assert_eq!(text(&first.replies[0]), "Blacklisted `<#123>`");
    let second = run(&mut g, 1, true, "!! blacklist 123");
    assert_eq!(text(&second.replies[0]), "`<#123>` was already blacklisted");
    assert_eq!(g.config.blacklist, vec![123]);
}

#[test]
fn admin_twice_reports_already() {
    let mut g = GuildState::new("!!");
    let first = run(&mut g, 1, true, "!! admin 77");
    assert_eq!(text(&first.replies[0]), "Added `77` as a new admin");
    let second = run(&mut g, 1, true, "!! admin 77");
    assert_eq!(text(&second.replies[0]), "`77` was already an admin");
    assert_eq!(g.config.admins, vec![77]);
}

#[test]
fn unblacklist_and_unadmin() {
    let mut g = GuildState::new("!!");
    run(&mut g, 1, true, "!! blacklist 5");
    run(&mut g, 1, true, "!! blacklist 6");
    let o = run(&mut g, 1, true, "!! unblacklist 5");
    assert_eq!(text(&o.replies[0]), "Unblacklisted `<#5>`");
    let o = run(&mut g, 1, true, "!! unblacklist 5");
    assert_eq!(text(&o.replies[0]), "`<#5>` was not blacklisted");
    assert_eq!(g.config.blacklist, vec![6]);
    run(&mut g, 1, true, "!! admin 9");
    let o = run(&mut g, 1, true, "!! unadmin 9");
    assert_eq!(text(&o.replies[0]), "Removed `9` from being an admin");
    let o = run(&mut g, 1, true, "!! unadmin 9");
    assert_eq!(text(&o.replies[0]), "`9` was not an admin");
    assert!(g.config.admins.is_empty());
}

#[test]
fn pin_channel_is_blacklisted() {
    let mut g = GuildState::new("!!");
    let o = run(&mut g, 1, true, "!! set_pin_channel 42");
    assert_eq!(text(&o.replies[0]), "Set pins channel to `<#42>` and added it to the blacklist");
    assert_eq!(g.config.pin_channel, Some(42));
    assert_eq!(g.config.blacklist, vec![42]);
    let o = run(&mut g, 1, true, "!! set_pin_channel 42");
    assert_eq!(text(&o.replies[0]), "Set pins channel to `<#42>`, and it was already blacklisted");
    assert_eq!(g.config.blacklist, vec![42]);
}

#[test]
fn missing_argument_changes_nothing() {
    let mut g = GuildState::new("!!");
    run(&mut g, 1, true, "!! blacklist 8");
    let o = run(&mut g, 1, true, "!! set_pin_channel");
    assert_eq!(text(&o.replies[0]), "An error occured: \nNot enough arguments (1 expected)");
    assert_eq!(g.config.pin_channel, None);
    assert_eq!(g.config.blacklist, vec![8]);
    assert!(!o.save_config);
    let o = run(&mut g, 1, true, "!! admin -3");
    assert_eq!(text(&o.replies[0]), "An error occured: \ninvalid digit found in string");
    assert!(g.config.admins.is_empty());
}

#[test]
fn show_blacklist_lists_channels() {
    let mut g = GuildState::new("!!");
    run(&mut g, 1, true, "!! blacklist 3");
    run(&mut g, 1, true, "!! blacklist 4");
    let o = run(&mut g, 1, true, "!! show_blacklist");
    assert_eq!(text(&o.replies[0]), "- <#3>\n- <#4>");
    assert!(o.save_config);
}

#[test]
fn list_admins_and_save() {
    let mut g = GuildState::new("!!");
    run(&mut g, 1, true, "!! admin 10");
    run(&mut g, 1, true, "!! admin 11");
    let o = run(&mut g, 1, true, "!! list_admins");
    match &o.replies[0] {
        Reply::Admins(a) => assert_eq!(a, &vec![10, 11]),
        _ => panic!("expected the admin list"),
    }
    let o = run(&mut g, 1, true, "!! save");
    assert!(o.replies.is_empty());
    assert!(o.save_counts);
    assert!(o.save_config);
}

#[test]
fn set_potato_unicode() {
    let mut g = GuildState::new("!!");
    let o = run(&mut g, 1, true, "!! set_potato \u{1F34E}");
    assert_eq!(text(&o.replies[0]), "Set potato emoji to \u{1F34E} (from \u{1F954})");
    assert_eq!(g.config.tater_emoji, Reaction::Unicode(String::from("\u{1F34E}")));
}

#[test]
fn set_potato_custom() {
    let mut g = GuildState::new("!!");
    let o = run(&mut g, 1, true, "!! set_potato <:pot:600404340292059257>");
    assert_eq!(text(&o.replies[0]), "Set potato emoji to <:pot:600404340292059257> (from \u{1F954})");
    assert_eq!(
        g.config.tater_emoji,
        Reaction::Custom { animated: false, id: 600404340292059257, name: Some(String::from("pot")) }
    );
    assert_eq!(g.config.tater_emoji.text(), "<:pot:600404340292059257>");
}

#[test]
fn set_potato_refuses_unclosed_custom() {
    let mut g = GuildState::new("!!");
    let o = run(&mut g, 1, true, "!! set_potato <abc");
    assert_eq!(text(&o.replies[0]), "An error occured: \nfailed to convert from a string to ReactionType");
    assert_eq!(g.config.tater_emoji, Reaction::Unicode(String::from("\u{1F954}")));
    assert!(!o.save_config);
}

#[test]
fn animated_reaction_text() {
    let r = Reaction::Custom { animated: true, id: 5, name: Some(String::from("spin")) };
    assert_eq!(r.text(), "<a:spin:5>");
    let r = Reaction::Custom { animated: false, id: 0, name: None };
    assert_eq!(r.text(), "<::0>");
}

#[test]
fn arg_error_messages() {
    assert_eq!(arg_error_message(ArgError::BadInteger(IntError::Empty)), "An error occured: \ncannot parse integer from empty string");
    assert_eq!(arg_error_message(ArgError::BadReaction), "An error occured: \nfailed to convert from a string to ReactionType");
}

#[test]
fn store_creates_guilds_on_first_use() {
    let mut store = GuildStore::new("!!");
    assert!(store.get(5).is_none());
    let o = store.dispatch(5, 1, BOT, true, "!! set_threshold 9").unwrap();
    assert_eq!(text(&o.replies[0]), "Threshold changed to 9");
    assert_eq!(store.get(5).unwrap().config.threshold, 9);
    store.dispatch(6, 1, BOT, true, "!! set_threshold 2").unwrap();
    assert_eq!(store.get(5).unwrap().config.threshold, 9);
    assert_eq!(store.get(6).unwrap().config.threshold, 2);
    assert_eq!(store.get(6).unwrap().config.trigger_word, "!!");
}

#[test]
fn store_put_replaces_state() {
    let mut store = GuildStore::new("!!");
    let mut g = GuildState::new("??");
    g.config.threshold = 1;
    store.put(3, g);
    assert!(store.dispatch(3, 1, BOT, true, "!! help").is_none());
    let o = store.dispatch(3, 1, BOT, false, "?? help").unwrap();
    assert_eq!(text(&o.replies[0]), HELP);
    assert_eq!(store.get(3).unwrap().config.threshold, 1);
}
