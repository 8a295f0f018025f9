use capybara::community::{wants_follow, CommunityId, CommunityKey, SubscribedType};
use capybara::media::{
    ends_with, has_embed, is_image, is_magic_embed, is_video, magic_embed_src, starts_with,
    thumbnail_for,
};
use capybara::path::{parent_of_path, parse_i32, PathError};
use capybara::post::SortType;
use capybara::sorting::sort_to_text;
use capybara::time::relative_time;
use capybara::voter::{toggle_vote, vote_counts, VoteCounts};

#[test]
fn parent_of_path_reads_second_to_last_segment() {
    assert_eq!(parent_of_path("0.5.9"), Ok(5));
    assert_eq!(parent_of_path("0.9"), Ok(0));
    assert_eq!(parent_of_path("0.2147483647.1"), Ok(2147483647));
    assert_eq!(parent_of_path("0.007.1"), Ok(7));
}

#[test]
fn parent_of_path_errors() {
    assert_eq!(parent_of_path("9"), Err(PathError::MissingParent));
    assert_eq!(parent_of_path(""), Err(PathError::MissingParent));
    assert_eq!(parent_of_path("0..9"), Err(PathError::InvalidParent));
    assert_eq!(parent_of_path(".9"), Err(PathError::InvalidParent));
    assert_eq!(parent_of_path("0.2147483648.1"), Err(PathError::InvalidParent));
    assert_eq!(parent_of_path("0.-3.1"), Err(PathError::InvalidParent));
    assert_eq!(parent_of_path("0.12a.1"), Err(PathError::InvalidParent));
}

#[test]
fn parse_i32_cases() {
    assert_eq!(parse_i32("42"), Some(42));
    assert_eq!(parse_i32("-2147483648"), Some(i32::MIN));
    assert_eq!(parse_i32("+7"), Some(7));
    assert_eq!(parse_i32("2147483647"), Some(i32::MAX));
    assert_eq!(parse_i32("2147483648"), None);
    assert_eq!(parse_i32("-"), None);
    assert_eq!(parse_i32("abc"), None);
    assert_eq!(parse_i32(""), None);
}

#[test]
fn community_key_from_param() {
    let k = CommunityKey::from_param("12");
    assert_eq!(k, CommunityKey::Id(CommunityId(12)));
    assert_eq!(k.id(), Some(CommunityId(12)));
    assert_eq!(k.name(), None);
    let k = CommunityKey::from_param("rust@lemmy.ml");
    assert_eq!(k, CommunityKey::Name("rust@lemmy.ml".to_string()));
    assert_eq!(k.id(), None);
    assert_eq!(k.name(), Some("rust@lemmy.ml".to_string()));
}

#[test]
fn follow_state() {
    assert!(wants_follow(SubscribedType::Subscribed));
    assert!(wants_follow(SubscribedType::Pending));
    assert!(!wants_follow(SubscribedType::NotSubscribed));
}

#[test]
fn prefix_and_suffix() {
    assert!(starts_with("https://x", "https"));
    assert!(!starts_with("http", "https"));
    assert!(starts_with("abc", ""));
    assert!(ends_with("a.png", ".png"));
    assert!(!ends_with("png", ".png"));
}

#[test]
fn media_kinds() {
    assert!(is_image("https://i.example/a.jpeg"));
    assert!(is_image("x.gif"));
    assert!(!is_image("https://example.org/page"));
    assert!(is_video("clip.webm"));
    assert!(!is_video("clip.mp3"));
    assert!(is_magic_embed("https://www.redgifs.com/watch/abc"));
    assert!(is_magic_embed("https://redgifs.com/watch/abc"));
    assert!(!is_magic_embed("https://redgifs.com/other/abc"));
}

#[test]
fn magic_embed_player_address() {
    assert_eq!(
        magic_embed_src("https://www.redgifs.com/watch/sleepyfox"),
        Some("https://www.redgifs.com/ifr/sleepyfox".to_string())
    );
    assert_eq!(magic_embed_src("https://example.org/watch/x"), None);
}

#[test]
fn thumbnail_choice() {
    let t = Some("https://t/thumb.png".to_string());
    let img = Some("https://i/full.jpg".to_string());
    let page = Some("https://example.org/article".to_string());
    assert_eq!(thumbnail_for(t.clone(), page.clone()), t);
    assert_eq!(thumbnail_for(None, img.clone()), img);
    assert_eq!(thumbnail_for(None, page), None);
    assert_eq!(thumbnail_for(None, None), None);
}

#[test]
fn embed_detection() {
    assert!(has_embed(&Some("t".to_string()), &None, &None, ""));
    assert!(has_embed(&None, &None, &None, "a.mp4"));
    assert!(!has_embed(&None, &None, &None, "https://example.org"));
}

#[test]
fn sort_labels() {
    assert_eq!(sort_to_text(None), "None");
    assert_eq!(sort_to_text(Some(SortType::TopSixHour)), "Top 6 Hour");
    assert_eq!(sort_to_text(Some(SortType::MostComments)), "Most Comments");
    assert_eq!(sort_to_text(Some(SortType::Hot)), "Hot");
}

#[test]
fn relative_time_units() {
    assert_eq!(relative_time(2 * 604800 + 5), (2, "w"));
    assert_eq!(relative_time(90000), (1, "d"));
    assert_eq!(relative_time(7200), (2, "h"));
    assert_eq!(relative_time(3599), (59, "m"));
    assert_eq!(relative_time(59), (0, "m"));
    assert_eq!(relative_time(-120), (-2, "m"));
    assert_eq!(relative_time(-59), (0, "m"));
}

#[test]
fn vote_counts_follow_own_vote() {
    assert_eq!(
        vote_counts(Some(1), Some(-1), 10, 2, 8),
        VoteCounts { upvotes: 9, downvotes: 3, score: 6 }
    );
    assert_eq!(
        vote_counts(None, Some(1), 10, 2, 8),
        VoteCounts { upvotes: 11, downvotes: 2, score: 9 }
    );
    assert_eq!(
        vote_counts(Some(-1), None, 0, 1, -1),
        VoteCounts { upvotes: 0, downvotes: 0, score: 0 }
    );
    assert_eq!(
        vote_counts(None, Some(-1), 0, 0, i64::MIN),
        VoteCounts { upvotes: 0, downvotes: 1, score: i64::MIN as i128 - 1 }
    );
}

#[test]
fn toggling_votes() {
    assert_eq!(toggle_vote(None, 1), Some(1));
    assert_eq!(toggle_vote(Some(1), 1), None);
    assert_eq!(toggle_vote(Some(1), -1), Some(-1));
    assert_eq!(toggle_vote(Some(-1), -1), None);
}

#[test]
fn relative_time_between_counts_from_now() {
    let now = 1_700_000_000;
    assert_eq!(capybara::time::relative_time_between(now - 3 * 3600, now), (3, "h"));
    assert_eq!(capybara::time::relative_time_between(now + 120, now), (-2, "m"));
    assert_eq!(capybara::time::relative_time_between(i64::MIN, now), (i64::MAX / 604800, "w"));
    assert_eq!(capybara::time::relative_time_between(i64::MAX, i64::MIN), (i64::MIN / 60, "m"));
}
