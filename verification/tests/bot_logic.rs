use boardbot::dataurl::{emote_data_url, png_named};
use boardbot::emotes::{Emote, Response, find_emote, has_emote_named, is_admin};
use boardbot::friday::{
    Friday, FridayTransition, MessageAction, add_user, contains_bytes, friday_transition,
    is_friday, is_sinner, message_action, remove_user, weekday_is_friday,
};
use boardbot::notation::{chess_to_coord, coord_to_chess};

#[test]
fn friday_list_add_and_remove() {
    let mut f = Friday::new();
    assert!(!f.friday);
    assert!(f.angels.is_empty());
    add_user(&mut f, 7);
    add_user(&mut f, 9);
    add_user(&mut f, 7);
    assert_eq!(f.angels, vec![7, 9, 7]);
    remove_user(&mut f, 7);
    assert_eq!(f.angels, vec![9]);
    remove_user(&mut f, 1);
    assert_eq!(f.angels, vec![9]);
}

#[test]
fn sinners_are_those_not_absolved() {
    let mut f = Friday::new();
    assert!(is_sinner(&f, 3));
    add_user(&mut f, 3);
    assert!(!is_sinner(&f, 3));
    assert!(is_sinner(&f, 4));
}

#[test]
fn weekday_rule_names_friday() {
    for d in 0..7u32 {
        assert_eq!(weekday_is_friday(d), d == 4);
    }
    // the clock's answer is whatever today brings; only call it
    let _ = is_friday();
}

#[test]
fn controller_transition_table() {
    assert_eq!(
        friday_transition(false, false),
        FridayTransition { new_friday: false, write_state: false, reset_angels: false, announce: false }
    );
    assert_eq!(
        friday_transition(false, true),
        FridayTransition { new_friday: true, write_state: true, reset_angels: true, announce: true }
    );
    assert_eq!(
        friday_transition(true, false),
        FridayTransition { new_friday: false, write_state: true, reset_angels: false, announce: false }
    );
    assert_eq!(
        friday_transition(true, true),
        FridayTransition { new_friday: true, write_state: false, reset_angels: false, announce: false }
    );
}

#[test]
fn substring_search_over_bytes() {
    let hay = b"https://tenor.com/view/fiber-optic-friday".to_vec();
    assert!(contains_bytes(&hay, &b"tenor".to_vec()));
    assert!(contains_bytes(&hay, &b"fiber-optic-friday".to_vec()));
    assert!(!contains_bytes(&hay, &b"saturday".to_vec()));
    assert!(contains_bytes(&hay, &Vec::new()));
    assert!(!contains_bytes(&b"ab".to_vec(), &b"abc".to_vec()));
    assert!(contains_bytes(&b"aab".to_vec(), &b"ab".to_vec()));
}

#[test]
fn message_decisions() {
    let mut f = Friday::new();
    let gif = b"look https://tenor.com/view/fiber-optic-friday-gif".to_vec();
    let plain = b"hello there".to_vec();
    // a sinner posting the gif on a Friday is absolved
    assert_eq!(message_action(false, true, &f, 5, &gif), MessageAction::Absolve);
    // the same message on another day only draws the weekday reaction
    assert_eq!(message_action(false, false, &f, 5, &gif), MessageAction::React(false));
    // a plain message on a Friday draws the Friday reaction
    assert_eq!(message_action(false, true, &f, 5, &plain), MessageAction::React(true));
    // bots are left alone
    assert_eq!(message_action(true, true, &f, 5, &gif), MessageAction::Nothing);
    // the absolved are left alone
    add_user(&mut f, 5);
    assert_eq!(message_action(false, true, &f, 5, &gif), MessageAction::Nothing);
}

#[test]
fn emote_lookup_matches_name_or_id() {
    let emotes = vec![
        Emote { name: "kek".to_string(), emote: "111".to_string() },
        Emote { name: "sad".to_string(), emote: "222".to_string() },
        Emote { name: "kek2".to_string(), emote: "333".to_string() },
    ];
    assert_eq!(find_emote(&emotes, &"sad".to_string()), Some(1));
    assert_eq!(find_emote(&emotes, &"333".to_string()), Some(2));
    assert_eq!(find_emote(&emotes, &"kek".to_string()), Some(0));
    assert_eq!(find_emote(&emotes, &"nope".to_string()), None);
    assert!(has_emote_named(&emotes, &"kek2".to_string()));
    assert!(!has_emote_named(&emotes, &"111".to_string()));
}

#[test]
fn admin_check_is_membership() {
    let admins = vec![10u64, 20, 30];
    assert!(is_admin(&admins, 20));
    assert!(!is_admin(&admins, 25));
    assert!(!is_admin(&Vec::new(), 25));
}

#[test]
fn responses_carry_their_text() {
    let shown = Response::Shown("done".to_string());
    let hidden = Response::Hidden("no".to_string());
    match shown {
        Response::Shown(s) => assert_eq!(s, "done"),
        Response::Hidden(_) => panic!("wrong kind"),
    }
    match hidden {
        Response::Hidden(s) => assert_eq!(s, "no"),
        Response::Shown(_) => panic!("wrong kind"),
    }
}

#[test]
fn data_url_encodes_base64_with_media_type() {
    assert_eq!(
        emote_data_url(&b"abc".to_vec(), &b"x.png".to_vec()),
        b"data:image/png;base64,YWJj".to_vec()
    );
    assert_eq!(
        emote_data_url(&b"ab".to_vec(), &b"x.gif".to_vec()),
        b"data:image/jpg;base64,YWI=".to_vec()
    );
    assert_eq!(
        emote_data_url(&b"a".to_vec(), &b"x.jpg".to_vec()),
        b"data:image/jpg;base64,YQ==".to_vec()
    );
    assert_eq!(
        emote_data_url(&Vec::new(), &b"png".to_vec()),
        b"data:image/png;base64,".to_vec()
    );
    // the longer stock sentence, to pin every digit path
    assert_eq!(
        emote_data_url(&b"hello world!".to_vec(), &b"p.png".to_vec()),
        b"data:image/png;base64,aGVsbG8gd29ybGQh".to_vec()
    );
}

#[test]
fn png_naming_follows_the_last_segment() {
    assert!(png_named(&b"x.png".to_vec()));
    assert!(png_named(&b"png".to_vec()));
    assert!(png_named(&b".png".to_vec()));
    assert!(png_named(&b"a.b.png".to_vec()));
    assert!(!png_named(&b"apng".to_vec()));
    assert!(!png_named(&b"x.PNG".to_vec()));
    assert!(!png_named(&b"x.png.jpg".to_vec()));
    assert!(!png_named(&b"x.jpg".to_vec()));
    assert!(!png_named(&b"".to_vec()));
}

#[test]
fn notation_round_trip_on_files() {
    assert_eq!(chess_to_coord(('a', '1')), (0, 48));
    assert_eq!(chess_to_coord(('h', '8')), (7, 55));
    assert_eq!(coord_to_chess((0, 0)), ('a', 1));
    assert_eq!(coord_to_chess((7, 7)), ('h', 8));
}
