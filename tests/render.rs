use nicoass::convert::{classify, Class, Comment};
use nicoass::office::clean_office_text;
use nicoass::poll::{layout_of, ConvertError};
use nicoass::{get_color, sec2hms, xml2ass};

fn comment(content: &str, operator: bool, mail: Option<&str>, vpos: u64, premium: Option<u64>) -> Comment {
    Comment {
        content: content.to_string(),
        user_id: if operator { "operator".to_string() } else { "12345".to_string() },
        is_operator: operator,
        mail: mail.map(|m| m.to_string()),
        vpos,
        premium,
    }
}

fn section<'a>(doc: &'a str, style: &str) -> Vec<&'a str> {
    let tag = format!(",{},", style);
    doc.lines().filter(|l| l.starts_with("Dialogue:") && l.contains(&tag)).collect()
}

fn styles(list: &[&str]) -> Vec<String> {
    list.iter().map(|s| s.to_string()).collect()
}

#[test]
fn time_stamps() {
    assert_eq!(sec2hms(0), "00:00:00.0");
    assert_eq!(sec2hms(366150), "01:01:01.5");
    assert_eq!(sec2hms(12345), "00:02:03.45");
    assert_eq!(sec2hms(500), "00:00:05.0");
    assert_eq!(sec2hms(105), "00:00:01.05");
    assert_eq!(sec2hms(36000000), "100:00:00.0");
}

#[test]
fn named_color_is_written_bgr() {
    assert_eq!(get_color(&styles(&["red"])), "\\1c&H0000FF&");
    assert_eq!(get_color(&styles(&["passionorange"])), "\\1c&H0066ff&");
}

#[test]
fn explicit_color_wins_over_named() {
    assert_eq!(get_color(&styles(&["#112233", "red"])), "\\1c&H332211&");
    assert_eq!(get_color(&styles(&["red", "#112233"])), "\\1c&H332211&");
    assert_eq!(get_color(&styles(&["x#aBcDeFy"])), "\\1c&HeFcDaB&");
}

#[test]
fn black_gets_white_outline() {
    assert_eq!(get_color(&styles(&["black"])), "\\1c&H000000&\\3c&HFFFFFF&");
    assert_eq!(get_color(&styles(&["#000000"])), "\\1c&H000000&\\3c&HFFFFFF&");
}

#[test]
fn no_token_is_white() {
    assert_eq!(get_color(&Vec::new()), "\\1c&HFFFFFF&");
    assert_eq!(get_color(&styles(&["", "big", "#12345"])), "\\1c&HFFFFFF&");
}

#[test]
fn classification() {
    assert_eq!(classify(&comment("/clear", false, None, 0, None)), Class::Dropped);
    assert_eq!(classify(&comment("hi", false, None, 0, Some(2))), Class::Dropped);
    assert_eq!(classify(&comment("/vote start q a", true, None, 0, None)), Class::VoteControl);
    assert_eq!(classify(&comment("/vote stop", true, None, 0, None)), Class::VoteControl);
    assert_eq!(classify(&comment("hi", true, None, 0, None)), Class::Operator);
    assert_eq!(classify(&comment("hi", false, Some("ue gothic"), 0, None)), Class::AsciiArt);
    assert_eq!(classify(&comment("hi", false, Some("shita ue"), 0, None)), Class::Top);
    assert_eq!(classify(&comment("hi", false, Some("ue shita red"), 0, None)), Class::Bottom);
    assert_eq!(classify(&comment("hi", false, Some("red"), 0, Some(1))), Class::Scroll);
}

#[test]
fn blocked_comments_leave_nothing() {
    let chats = vec![
        comment("/info 3 hello", false, None, 100, None),
        comment("ok", false, None, 200, Some(2)),
        comment("Ended\nart", false, Some("gothic"), 300, None),
        comment("30分延長しました", true, None, 400, None),
    ];
    let doc = xml2ass(&chats).unwrap();
    assert!(section(&doc, "Danmaku").is_empty());
    assert!(section(&doc, "Office").is_empty());
    assert!(section(&doc, "AA").is_empty());
    assert!(section(&doc, "Anketo").is_empty());
}

#[test]
fn round_trip_three_comments() {
    let chats = vec![
        comment("hidden", false, None, 100, Some(2)),
        comment("hello", false, None, 200, None),
        comment("notice", true, None, 300, None),
    ];
    let doc = xml2ass(&chats).unwrap();
    assert_eq!(
        section(&doc, "Danmaku"),
        vec!["Dialogue: 2,00:00:02.0,00:00:10.0,Danmaku,,0,0,0,,{\\an7\\move(1280,0,-350,0)\\1c&HFFFFFF&}hello"]
    );
    assert!(section(&doc, "Office").is_empty());

    let mut more = chats;
    more.push(comment("later", false, None, 1701, None));
    let doc = xml2ass(&more).unwrap();
    assert_eq!(
        section(&doc, "Office"),
        vec![
            "Dialogue: 4,00:00:03.0,00:00:11.0,Office,,0,0,0,,{\\an5\\p1\\pos(640,36)\\bord0\\1c&H000000&\\1a&H78&}m 0 0 l 1280 0 l 1280 72 l 0 72",
            "Dialogue: 5,00:00:03.0,00:00:11.0,Office,,0,0,0,,{\\an5\\pos(640,36)\\bord0\\1c&HFFFFFF&\\fsp0}notice",
        ]
    );
    assert_eq!(section(&doc, "Danmaku").len(), 2);
}

#[test]
fn operator_text_waits_within_gap() {
    let chats = vec![
        comment("notice", true, None, 300, None),
        comment("soon", false, None, 1700, None),
    ];
    let doc = xml2ass(&chats).unwrap();
    assert!(section(&doc, "Office").is_empty());
}

#[test]
fn operator_text_ends_at_next_operator() {
    let chats = vec![
        comment("first", true, None, 300, None),
        comment("second", true, None, 500, None),
    ];
    let doc = xml2ass(&chats).unwrap();
    let office = section(&doc, "Office");
    assert_eq!(office.len(), 2);
    assert!(office[0].starts_with("Dialogue: 4,00:00:03.0,00:00:05.0,Office"));
    assert!(office[1].ends_with("\\fsp0}first"));
}

#[test]
fn operator_link_is_stripped_and_highlighted() {
    let chats = vec![
        comment("<a href=http://x.y><u>link</u></a> here/perm", true, None, 0, None),
        comment("next", true, None, 100, None),
    ];
    let doc = xml2ass(&chats).unwrap();
    let office = section(&doc, "Office");
    assert_eq!(
        office[1],
        "Dialogue: 5,00:00:00.0,00:00:01.0,Office,,0,0,0,,{\\an5\\pos(640,36)\\bord0\\1c&HFF8000&\\u1\\fsp0}link here"
    );
}

#[test]
fn operator_text_cleaning() {
    let raw: Vec<char> = "see http://a\u{3000}b".chars().collect();
    let (text, link) = clean_office_text(&raw);
    assert!(link);
    assert_eq!(text.iter().collect::<String>(), "see ://a  b");
    let long: Vec<char> = "plain".chars().collect();
    let (text, link) = clean_office_text(&long);
    assert!(!link);
    assert_eq!(text.iter().collect::<String>(), "plain");
}

#[test]
fn long_operator_text_is_smaller() {
    let long = "x".repeat(51);
    let chats = vec![comment(&long, true, None, 0, None), comment("next", true, None, 100, None)];
    let doc = xml2ass(&chats).unwrap();
    assert!(section(&doc, "Office")[1].contains("\\fsp0\\fs30}"));
}

#[test]
fn two_option_poll_without_results() {
    let chats = vec![
        comment("/vote start Which? Yes No", true, None, 1000, None),
        comment("/vote stop", true, None, 2000, None),
    ];
    let doc = xml2ass(&chats).unwrap();
    let office = section(&doc, "Office");
    assert_eq!(office.len(), 3);
    assert_eq!(
        office[1],
        "Dialogue: 5,00:00:10.0,00:00:20.0,Office,,0,0,0,,{\\an5\\pos(640,36)\\1c&HFF8000&\\bord0\\fsp0}Q.{\\1c&HFFFFFF&}Which?"
    );
    let anketo = section(&doc, "Anketo");
    assert_eq!(anketo.len(), 8);
    assert_eq!(
        anketo[0],
        "Dialogue: 5,00:00:10.0,00:00:20.0,Anketo,,0,0,0,,{\\an5\\p1\\bord0\\1c&HFFFFC8&\\pos(266,280)}m 0 0 l 96 0 l 96 0 l 0 96"
    );
    assert_eq!(
        anketo[1],
        "Dialogue: 5,00:00:10.0,00:00:20.0,Anketo,,0,0,0,,{\\an5\\bord0\\1c&HD5A07B&\\pos(258,272)}1"
    );
    assert_eq!(
        anketo[2],
        "Dialogue: 5,00:00:10.0,00:00:20.0,Anketo,,0,0,0,,{\\an5\\p1\\3c&HFFFFC8&\\bord6\\1c&HD5A07B&\\1a&H78&\\pos(386,360)}m 0 0 l 320 0 l 320 240 l 0 240"
    );
    assert_eq!(
        anketo[3],
        "Dialogue: 5,00:00:10.0,00:00:20.0,Anketo,,0,0,0,,{\\an5\\bord0\\1c&HFFFFFF\\pos(386,360)}\\NYes"
    );
    assert!(anketo[7].ends_with("\\pos(894,360)}\\NNo"));
    assert!(!doc.contains("3E2E2A"));
}

#[test]
fn two_option_poll_with_results() {
    let chats = vec![
        comment("/vote start Which? Yes No", true, None, 1000, None),
        comment("/vote showresult per 523 477", true, None, 1500, None),
        comment("/vote stop", true, None, 2000, None),
    ];
    let doc = xml2ass(&chats).unwrap();
    let anketo = section(&doc, "Anketo");
    assert_eq!(anketo.len(), 12);
    assert_eq!(
        anketo[4],
        "Dialogue: 5,00:00:15.0,00:00:20.0,Anketo,,0,0,0,,{\\an5\\p1\\bord0\\1c&H3E2E2A&\\pos(386,480)}m 0 0 s 150 0 150 60 0 60 c"
    );
    assert_eq!(
        anketo[5],
        "Dialogue: 5,00:00:15.0,00:00:20.0,Anketo,,0,0,0,,{\\fs48\\an5\\bord0\\1c&H76FAF8&\\pos(386,480)}52.3%"
    );
    assert!(anketo[11].ends_with("}47.7%"));
    assert_eq!(doc.matches("3E2E2A").count(), 2);
}

#[test]
fn four_option_poll_grid_and_wrapping() {
    let chats = vec![
        comment("/vote start Q abcdefghij B C 123456789012345678", true, None, 0, None),
        comment("bye", true, None, 100, None),
    ];
    let doc = xml2ass(&chats).unwrap();
    let anketo = section(&doc, "Anketo");
    assert_eq!(anketo.len(), 16);
    assert!(anketo[0].ends_with("\\pos(256,180)}m 0 0 l 60 0 l 60 0 l 0 60"));
    assert!(anketo[1].ends_with("{\\fs48\\an5\\bord0\\1c&HD5A07B&\\pos(242,166)}1"));
    assert!(anketo[2].ends_with("\\pos(386,240)}m 0 0 l 320 0 l 320 180 l 0 180"));
    assert!(anketo[3].ends_with("{\\fs48\\an5\\bord0\\1c&HFFFFFF&\\pos(386,240)}abcdefg\\Nhij"));
    assert!(anketo[15].ends_with("\\pos(894,480)}1234567\\N8901234\\N5678"));
}

#[test]
fn poll_layouts_by_option_count() {
    let (cells, w, h, compact) = layout_of(1);
    assert_eq!((cells, w, h, compact), (vec![(640, 360)], 320, 240, true));
    let (cells, _, _, _) = layout_of(3);
    assert_eq!(cells, vec![(280, 360), (640, 360), (1000, 360)]);
    let (cells, w, h, _) = layout_of(5);
    assert_eq!(cells, vec![(344, 240), (640, 240), (936, 240), (344, 480), (640, 480)]);
    assert_eq!((w, h), (256, 180));
    let (cells, _, _, _) = layout_of(8);
    assert_eq!(cells.len(), 8);
    assert_eq!(cells[4], (160, 480));
    let (cells, w, h, compact) = layout_of(12);
    assert_eq!(cells.len(), 9);
    assert_eq!(cells[8], (936, 600));
    assert_eq!((w, h, compact), (256, 3240, false));
}

#[test]
fn vote_errors() {
    let missing = vec![comment("/vote start Q", true, None, 0, None)];
    assert_eq!(xml2ass(&missing), Err(ConvertError::VoteSyntax));
    let unbalanced = vec![comment("/vote start \"Q a b", true, None, 0, None)];
    assert_eq!(xml2ass(&unbalanced), Err(ConvertError::VoteSyntax));
    let short = vec![comment("/vote", true, None, 0, None)];
    assert_eq!(xml2ass(&short), Err(ConvertError::VoteSyntax));
    let bad = vec![
        comment("/vote start Q a b", true, None, 0, None),
        comment("/vote showresult per 12 abc", true, None, 10, None),
        comment("/vote stop", true, None, 20, None),
    ];
    assert_eq!(xml2ass(&bad), Err(ConvertError::BadResult));
    let not_number = vec![
        comment("/vote start Q a b", true, None, 0, None),
        comment("/vote showresult per 1e3 5", true, None, 10, None),
        comment("/vote stop", true, None, 20, None),
    ];
    assert_eq!(xml2ass(&not_number), Err(ConvertError::BadResult));
}

#[test]
fn quoted_vote_words_and_backslashes() {
    let chats = vec![
        comment("/vote start \"Two words\" 'A B' C\\\\D", true, None, 0, None),
        comment("end", true, None, 100, None),
    ];
    let doc = xml2ass(&chats).unwrap();
    let office = section(&doc, "Office");
    assert!(office[1].ends_with("Q.{\\1c&HFFFFFF&}Two words"));
    let anketo = section(&doc, "Anketo");
    assert!(anketo[3].ends_with("}\\NA B"));
    assert!(anketo[7].ends_with("}\\NCD"));
}

#[test]
fn scroll_lanes_fill_in_order_and_reuse() {
    let chats = vec![
        comment("a", false, None, 0, None),
        comment("b", false, None, 0, Some(0)),
        comment("c", false, None, 900, None),
    ];
    let doc = xml2ass(&chats).unwrap();
    let dm = section(&doc, "Danmaku");
    assert!(dm[0].contains("\\move(1280,0,-70,0)"));
    assert_eq!(
        dm[1],
        "Dialogue: 2,00:00:00.0,00:00:08.0,Danmaku,,0,0,0,,{\\an7\\alpha80\\move(1280,64,-70,64)\\1c&HFFFFFF&}b"
    );
    assert!(dm[2].contains("\\move(1280,0,-70,0)"));
}

#[test]
fn crowded_time_stamp_wraps_rows() {
    let chats: Vec<Comment> = (0..13).map(|_| comment("x", false, None, 10, None)).collect();
    let doc = xml2ass(&chats).unwrap();
    let dm = section(&doc, "Danmaku");
    assert_eq!(dm.len(), 13);
    assert!(dm[10].contains("\\move(1280,640,"));
    assert!(dm[11].contains("\\move(1280,64,"));
    assert!(dm[12].contains("\\move(1280,128,"));
}

#[test]
fn fixed_comments_and_line_breaks() {
    let chats = vec![
        comment("top\nline", false, Some("ue red"), 100, None),
        comment("low", false, Some("shita black"), 100, None),
    ];
    let doc = xml2ass(&chats).unwrap();
    let dm = section(&doc, "Danmaku");
    assert_eq!(
        dm[0],
        "Dialogue: 2,00:00:01.0,00:00:09.0,Danmaku,,0,0,0,,{\\an8\\1c&H0000FF&}top\\Nline"
    );
    assert_eq!(
        dm[1],
        "Dialogue: 2,00:00:01.0,00:00:09.0,Danmaku,,0,0,0,,{\\an2\\1c&H000000&\\3c&HFFFFFF&}low"
    );
}

#[test]
fn ascii_art_block() {
    let chats = vec![comment("ab\ncd", false, Some("gothic #FF0000"), 100, None)];
    let doc = xml2ass(&chats).unwrap();
    assert_eq!(
        section(&doc, "AA"),
        vec![
            "Dialogue: 1,00:00:01.0,00:00:09.0,AA,,0,0,0,,{\\an4\\fsp-1\\move(1280,0,-640,0)\\1c&H0000FF&}ab",
            "Dialogue: 1,00:00:01.0,00:00:09.0,AA,,0,0,0,,{\\an4\\fsp-1\\move(1280,17,-640,17)\\1c&H0000FF&}cd",
        ]
    );
    assert!(section(&doc, "Danmaku").is_empty());
}

#[test]
fn document_layout() {
    let doc = xml2ass(&Vec::new()).unwrap();
    assert!(doc.starts_with("[Script Info]\n; Script generated by Aegisub 3.2.2\n; http://www.aegisub.org/\nScriptType: v4.00+\nPlayResX: 1280\nPlayResY: 720\n"));
    let office = doc.find("Comment: 0,0:00:00.00,0:00:00.00,Office,,0,0,0,,运营弹幕\n").unwrap();
    let danmaku = doc.find("Comment: 0,0:00:00.00,0:00:00.00,Danmaku,,0,0,0,,普通弹幕\n").unwrap();
    let aa = doc.find("Comment: 0,0:00:00.00,0:00:00.00,AA,,0,0,0,,AA弹幕\n").unwrap();
    assert!(office < danmaku && danmaku < aa);
    assert!(doc.ends_with("AA弹幕\n"));
    assert_eq!(doc.matches("Style: ").count(), 5);
    assert_eq!(doc, xml2ass(&Vec::new()).unwrap());
}

#[test]
fn results_without_open_poll_are_ignored() {
    let chats = vec![
        comment("/vote showresult per 500 500", true, None, 0, None),
        comment("/vote other words", true, None, 10, None),
        comment("hello", true, None, 20, None),
        comment("bye", true, None, 30, None),
    ];
    let doc = xml2ass(&chats).unwrap();
    assert!(section(&doc, "Anketo").is_empty());
    let office = section(&doc, "Office");
    assert_eq!(office.len(), 2);
    assert!(office[1].ends_with("}hello"));
}

#[test]
fn operator_comment_closing_poll_is_consumed() {
    let chats = vec![
        comment("/vote start Q a", true, None, 0, None),
        comment("closing words", true, None, 100, None),
        comment("later", true, None, 200, None),
    ];
    let doc = xml2ass(&chats).unwrap();
    assert!(!doc.contains("closing words"));
    let anketo = section(&doc, "Anketo");
    assert_eq!(anketo.len(), 4);
    assert!(anketo[2].contains("\\pos(640,360)"));
    let office = section(&doc, "Office");
    assert_eq!(office.len(), 3);
    assert!(office[0].starts_with("Dialogue: 4,00:00:00.0,00:00:01.0,Office"));
}

#[test]
fn new_poll_clears_old_results() {
    let chats = vec![
        comment("/vote start Q a b", true, None, 0, None),
        comment("/vote showresult per 100 900", true, None, 10, None),
        comment("/vote stop", true, None, 20, None),
        comment("/vote start R c d", true, None, 30, None),
        comment("/vote stop", true, None, 40, None),
    ];
    let doc = xml2ass(&chats).unwrap();
    assert_eq!(doc.matches("3E2E2A").count(), 2);
    assert_eq!(section(&doc, "Anketo").len(), 12 + 8);
}

#[test]
fn results_not_one_per_option_add_no_bars() {
    let chats = vec![
        comment("/vote start Q a b", true, None, 0, None),
        comment("/vote showresult per 12", true, None, 10, None),
        comment("/vote stop", true, None, 20, None),
    ];
    let doc = xml2ass(&chats).unwrap();
    assert_eq!(section(&doc, "Anketo").len(), 8);
    assert!(!doc.contains("3E2E2A"));
}

#[test]
fn fractional_results_are_numbers() {
    let chats = vec![
        comment("/vote start Q a b", true, None, 0, None),
        comment("/vote showresult per 12.5 3", true, None, 10, None),
        comment("/vote stop", true, None, 20, None),
    ];
    let doc = xml2ass(&chats).unwrap();
    let anketo = section(&doc, "Anketo");
    assert_eq!(anketo.len(), 12);
    assert!(anketo[5].ends_with("}1.2%"));
    assert!(anketo[11].ends_with("}0.3%"));
}

#[test]
fn lone_vote_stop_is_consumed() {
    let chats = vec![
        comment("/vote stop", true, None, 0, None),
        comment("bye", true, None, 100, None),
        comment("end", true, None, 200, None),
    ];
    let doc = xml2ass(&chats).unwrap();
    let office = section(&doc, "Office");
    assert_eq!(office.len(), 2);
    assert!(office[1].ends_with("}bye"));
    assert!(!doc.contains("/vote stop"));
}

#[test]
fn single_option_is_centered() {
    let chats = vec![
        comment("/vote start Q only", true, None, 0, None),
        comment("/vote stop", true, None, 10, None),
    ];
    let doc = xml2ass(&chats).unwrap();
    let anketo = section(&doc, "Anketo");
    assert!(anketo[2].contains("\\pos(640,360)}"));
    assert!(anketo[0].contains("\\pos(520,280)}"));
}
