//! Runtime checks of the library: the matching engine, the seen window, the
//! catalog cursor, recipient deduplication, message building, and the JSON
//! readers running against real serde_json.

use advnotify::advertisment::Advertisment;
use advnotify::catalog::CatalogCursor;
use advnotify::listing::{email_from_response, listing_ids};
use advnotify::notify::{notification_body, notification_subject};
use advnotify::recipients::{recipients_for, RecipientSet, ResolvedSubscription};
use advnotify::scraper::{link_for, Scraper};
use advnotify::subscription::Subscription;
use advnotify::text::text_matches_keywords;

fn notice(title: &str) -> Advertisment {
    Advertisment {
        advertising_notice_id: 1,
        contract_object: String::from(title),
        contract_description: String::new(),
        additional_information: None,
        estimated_value: None,
        min_estimated_value: None,
        max_estimated_value: None,
        publication_date: String::new(),
        link: String::new(),
    }
}

fn empty_subscription() -> Subscription {
    Subscription {
        id: 1,
        id_user: 1,
        min_price: None,
        max_price: None,
        title_keywords: None,
        desc_keywords: None,
        additional_info_keywords: None,
    }
}

#[test]
fn no_filters_matches_everything() {
    let ad = notice("Lucrari de reparatii drum");
    let sub = empty_subscription();
    assert!(ad.matches_subscription(&sub));

    let mut unpriced = notice("");
    unpriced.contract_description = String::from("anything at all");
    assert!(unpriced.matches_subscription(&sub));
}

#[test]
fn title_without_shared_token_fails() {
    let ad = notice("Lucrari de reparatii drum");
    let mut sub = empty_subscription();
    sub.title_keywords = Some(vec![String::from("pod"), String::from("autostrada")]);
    assert!(!ad.matches_subscription(&sub));
}

#[test]
fn matching_is_repeatable() {
    let ad = notice("Lucrari de reparatii drum");
    let mut sub = empty_subscription();
    sub.title_keywords = Some(vec![String::from("drum")]);
    let first = ad.matches_subscription(&sub);
    let second = ad.matches_subscription(&sub);
    assert_eq!(first, second);
    assert!(first);
}

#[test]
fn matching_is_case_insensitive_on_both_sides() {
    let ad = notice("LUCRARI de Reparatii DRUM");
    let mut sub = empty_subscription();
    sub.title_keywords = Some(vec![String::from("Drum")]);
    assert!(ad.matches_subscription(&sub));
}

#[test]
fn keywords_and_words_are_trimmed_of_punctuation() {
    let text = String::from("Reparatii drum, judetean");
    assert!(text_matches_keywords(&text, vec![String::from(" drum.")]));
    assert!(!text_matches_keywords(&text, vec![String::from("dru")]));
}

#[test]
fn tokens_are_delimited_by_any_whitespace() {
    let text = String::from("Lucrari\tde reparatii\ndrum");
    assert!(text_matches_keywords(&text, vec![String::from("drum")]));
    assert!(text_matches_keywords(&text, vec![String::from("lucrari")]));
    // The tab splits the text, so no token equals the pair as a whole.
    assert!(!text_matches_keywords(&text, vec![String::from("lucrari\tde")]));
}

#[test]
fn keywords_are_trimmed_of_surrounding_whitespace() {
    let text = String::from("Lucrari de reparatii drum");
    assert!(text_matches_keywords(&text, vec![String::from("drum\t")]));
    assert!(text_matches_keywords(&text, vec![String::from("\r\ndrum")]));
}

#[test]
fn whole_tokens_only_no_substrings() {
    let text = String::from("drumuri judetene");
    assert!(!text_matches_keywords(&text, vec![String::from("drum")]));
}

#[test]
fn empty_text_matches_no_keyword_set() {
    let text = String::new();
    assert!(!text_matches_keywords(&text, vec![String::from("drum")]));
}

#[test]
fn absent_additional_information_fails_present_keyword_filter() {
    let ad = notice("Lucrari de reparatii drum");
    let mut sub = empty_subscription();
    sub.additional_info_keywords = Some(vec![String::from("urgent")]);
    assert!(!ad.matches_subscription(&sub));
}

#[test]
fn price_window_scenario() {
    let mut ad = notice("Lucrari de reparatii drum");
    ad.estimated_value = Some(150000);
    let mut sub = empty_subscription();
    sub.title_keywords = Some(vec![String::from("drum")]);
    sub.min_price = Some(100000);
    sub.max_price = Some(200000);
    assert!(ad.matches_subscription(&sub));

    let mut strict = empty_subscription();
    strict.min_price = Some(200000);
    assert!(!ad.matches_subscription(&strict));
}

#[test]
fn unpriced_notice_passes_minimum_price_filter() {
    let ad = notice("Lucrari de reparatii drum");
    let mut sub = empty_subscription();
    sub.min_price = Some(1);
    assert!(ad.matches_subscription(&sub));
}

#[test]
fn minimum_price_falls_back_to_min_estimated_value() {
    let mut ad = notice("Lucrari");
    ad.min_estimated_value = Some(50);
    let mut sub = empty_subscription();
    sub.min_price = Some(100);
    assert!(!ad.matches_subscription(&sub));
    sub.min_price = Some(40);
    assert!(ad.matches_subscription(&sub));
}

#[test]
fn unpriced_notice_passes_maximum_price_filter() {
    let ad = notice("Lucrari");
    let mut sub = empty_subscription();
    sub.max_price = Some(1);
    assert!(ad.matches_subscription(&sub));
}

#[test]
fn seen_window_keeps_capacity_and_evicts_fifo() {
    let mut scraper = Scraper::new(50, 3, 600);
    assert_eq!(scraper.last_ads, vec![0, 0, 0]);

    scraper.accept_listing(vec![13, 11, 12, 14]);
    assert_eq!(scraper.new_ads, vec![11, 12, 13, 14]);
    assert_eq!(scraper.last_ads, vec![12, 13, 14]);

    while scraper.take_next_id().is_some() {}

    scraper.accept_listing(vec![12, 15]);
    assert_eq!(scraper.new_ads, vec![15]);
    assert_eq!(scraper.last_ads, vec![13, 14, 15]);
}

#[test]
fn listing_response_yields_sorted_deduplicated_ids() {
    let text = "{\"items\":[{\"advNoticeId\":5},{\"advNoticeId\":3},{\"advNoticeId\":5}]}";
    let ids = listing_ids(text).expect("a well-formed listing response");
    assert_eq!(ids, vec![5, 3, 5]);

    let mut scraper = Scraper::new(50, 100, 600);
    scraper.accept_listing(ids);
    assert_eq!(scraper.take_next_id(), Some(3));
    assert_eq!(scraper.take_next_id(), Some(5));
    assert_eq!(scraper.take_next_id(), None);
}

#[test]
fn listing_response_skips_bad_entries_only() {
    let text = "{\"items\":[{\"advNoticeId\":7},{\"other\":1},{\"advNoticeId\":\"x\"},{\"advNoticeId\":9}]}";
    assert_eq!(listing_ids(text), Some(vec![7, 9]));
}

#[test]
fn listing_response_fails_wholesale_without_items_array() {
    assert_eq!(listing_ids("not json at all"), None);
    assert_eq!(listing_ids("{\"other\":[]}"), None);
    assert_eq!(listing_ids("{\"items\":42}"), None);
}

#[test]
fn cursor_restarts_from_offset_zero_after_exhaustion() {
    let mut cursor = CatalogCursor::new(2);
    assert!(cursor.needs_page());
    assert_eq!(cursor.page_request(), (0, 2));
    cursor.accept_page(Some(vec![empty_subscription(), empty_subscription()]));
    assert!(cursor.take_buffered().is_some());
    assert!(cursor.take_buffered().is_some());

    assert!(cursor.needs_page());
    assert_eq!(cursor.page_request(), (2, 2));
    cursor.accept_page(Some(vec![empty_subscription()]));
    assert!(cursor.take_buffered().is_some());

    assert!(cursor.needs_page());
    assert_eq!(cursor.page_request(), (4, 2));
    cursor.accept_page(Some(vec![]));
    assert!(cursor.take_buffered().is_none());

    assert!(cursor.needs_page());
    assert_eq!(cursor.page_request(), (0, 2));
}

#[test]
fn cursor_treats_failed_fetch_as_exhaustion() {
    let mut cursor = CatalogCursor::new(3);
    cursor.accept_page(Some(vec![empty_subscription()]));
    assert!(cursor.take_buffered().is_some());
    cursor.accept_page(None);
    assert!(cursor.take_buffered().is_none());
    assert_eq!(cursor.page_request(), (0, 3));
}

#[test]
fn recipient_set_collapses_duplicates() {
    let mut set = RecipientSet::new();
    set.insert(String::from("a@example.com"));
    set.insert(String::from("b@example.com"));
    set.insert(String::from("a@example.com"));
    assert_eq!(set.len(), 2);
    assert_eq!(set.address_at(0).as_str(), "a@example.com");
    assert_eq!(set.address_at(1).as_str(), "b@example.com");
}

#[test]
fn one_notification_per_user_with_two_matching_subscriptions() {
    let ad = notice("Lucrari de reparatii drum");
    let mut by_title = empty_subscription();
    by_title.title_keywords = Some(vec![String::from("drum")]);
    let mut by_price = empty_subscription();
    by_price.id = 2;
    by_price.max_price = Some(10);
    let mut other_user = empty_subscription();
    other_user.id = 3;
    other_user.id_user = 2;

    let entries = vec![
        ResolvedSubscription { subscription: by_title, email: String::from("ana@example.com") },
        ResolvedSubscription { subscription: by_price, email: String::from("ana@example.com") },
        ResolvedSubscription { subscription: other_user, email: String::from("bob@example.com") },
    ];
    let set = recipients_for(&ad, &entries);
    assert_eq!(set.len(), 2);
    assert_eq!(set.address_at(0).as_str(), "ana@example.com");
    assert_eq!(set.address_at(1).as_str(), "bob@example.com");
}

#[test]
fn non_matching_subscriptions_collect_no_recipient() {
    let ad = notice("Lucrari de reparatii drum");
    let mut sub = empty_subscription();
    sub.title_keywords = Some(vec![String::from("pod")]);
    let entries = vec![ResolvedSubscription {
        subscription: sub,
        email: String::from("ana@example.com"),
    }];
    let set = recipients_for(&ad, &entries);
    assert_eq!(set.len(), 0);
}

#[test]
fn link_is_derived_from_the_identifier() {
    assert_eq!(
        link_for(100449529),
        "http://e-licitatie.ro/pub/notices/adv-notices/view/100449529"
    );
    assert_eq!(link_for(0), "http://e-licitatie.ro/pub/notices/adv-notices/view/0");
}

#[test]
fn notification_message_carries_title_and_link() {
    assert_eq!(notification_subject(), "A aparut un anunt nou!");
    let body = notification_body("Lucrari de reparatii drum", "http://example.com/5");
    assert_eq!(
        body,
        "Titlu anunt: Lucrari de reparatii drum\n\nLink: http://example.com/5"
    );
}

#[test]
fn email_is_read_from_a_user_lookup_response() {
    assert_eq!(
        email_from_response("{\"email\":\"ana@example.com\"}"),
        Some(String::from("ana@example.com"))
    );
    assert_eq!(email_from_response("{\"name\":\"ana\"}"), None);
    assert_eq!(email_from_response("{\"email\":7}"), None);
    assert_eq!(email_from_response("no json"), None);
}
