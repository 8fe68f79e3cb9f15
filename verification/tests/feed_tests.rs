use smotrim_rss_proxy::calendar::Date;
use smotrim_rss_proxy::enrich::{episode_from_entry, CatalogEntry, EnrichAction, Enricher};
use smotrim_rss_proxy::feed::{api_url_for, brand_url_for, media_url_for, Episode, Podcast};
use smotrim_rss_proxy::text::parse_u64_digits;
use smotrim_rss_proxy::xml::escape_xml;

fn entry(id: u64, active: &str, title: &str, published: &str) -> CatalogEntry {
    CatalogEntry {
        id,
        active_raw: active.to_owned(),
        title_raw: format!("\"{}\"", title),
        description_raw: "\"desc\"".to_owned(),
        duration_raw: "\"12:34\"".to_owned(),
        published_raw: published.to_owned(),
        image_raw: "\"https://img.example/p.png\"".to_owned(),
    }
}

const TODAY: Date = Date { year: 2025, month: 2, day: 1 };

#[test]
fn urls_are_derived_deterministically() {
    assert_eq!(
        media_url_for(42),
        "https://vgtrk-podcast.cdnvideo.ru/audio/listen?id=42"
    );
    assert_eq!(
        api_url_for(7, 20),
        "https://smotrim.ru/api/audios?brandId=7&limit=20"
    );
    assert_eq!(brand_url_for(123), "https://smotrim.ru/brand/123");
}

#[test]
fn digit_parsing_is_exact() {
    assert_eq!(parse_u64_digits("0"), Some(0));
    assert_eq!(parse_u64_digits("007"), Some(7));
    assert_eq!(parse_u64_digits("18446744073709551615"), Some(u64::MAX));
    assert_eq!(parse_u64_digits("18446744073709551616"), None);
    assert_eq!(parse_u64_digits(""), None);
    assert_eq!(parse_u64_digits("+5"), None);
    assert_eq!(parse_u64_digits("12a"), None);
}

#[test]
fn escaping_replaces_markup_characters() {
    assert_eq!(escape_xml("<a>&\""), "&lt;a&gt;&amp;&quot;");
    assert_eq!(escape_xml("plain"), "plain");
    assert_eq!(escape_xml(""), "");
}

#[test]
fn episode_fields_are_normalized() {
    let e = entry(5, "false", "A \\\"quoted\\\" title", "\"05 февраля 2025\"");
    let ep = episode_from_entry(&e, 9, 1234, TODAY).unwrap();
    // Backslash-escaped quotes are removed; the surrounding token quotes stay.
    assert_eq!(ep.title, "\"A quoted title\"");
    assert_eq!(ep.description, "\"desc\"");
    // Quote characters leave the duration; the image is quote-trimmed.
    assert_eq!(ep.duration, "12:34");
    assert_eq!(ep.image, "https://img.example/p.png");
    assert_eq!(ep.published, "Tue, 04 Feb 2025 21:00:00 +0000");
    assert_eq!(
        ep.media_url,
        "https://vgtrk-podcast.cdnvideo.ru/audio/listen?id=5"
    );
    assert_eq!(ep.media_size, 1234);
    assert_eq!(ep.brand_id, 9);
}

#[test]
fn titles_with_markup_render_escaped() {
    let e = entry(5, "false", "Tom <b> Jerry & Co", "\"05 февраля 2025\"");
    let ep = episode_from_entry(&e, 9, 10, TODAY).unwrap();
    let xml = ep.to_string();
    assert!(xml.contains("<title>&quot;Tom &lt;b&gt; Jerry &amp; Co&quot;</title>"));
    assert!(!xml.contains("<b>"));
}

#[test]
fn item_block_renders_exactly() {
    let ep = Episode {
        id: 3,
        brand_id: 1,
        title: "T".to_owned(),
        description: "D".to_owned(),
        duration: "1:00".to_owned(),
        published: "Thu, 01 Jan 1970 00:00:00 +0000".to_owned(),
        image: "https://img.example/i.png".to_owned(),
        media_url: "https://vgtrk-podcast.cdnvideo.ru/audio/listen?id=3".to_owned(),
        media_size: 77,
    };
    let expected = "<item>\n            <title>T</title>\n            <description>D</description>\n            <guid isPermaLink=\"true\">https://vgtrk-podcast.cdnvideo.ru/audio/listen?id=3</guid>\n            <enclosure url=\"https://vgtrk-podcast.cdnvideo.ru/audio/listen?id=3\" length=\"77\" type=\"audio/mpeg\"/>\n            <itunes:duration>1:00</itunes:duration>\n            <pubDate>Thu, 01 Jan 1970 00:00:00 +0000</pubDate>\n            <itunes:image href=\"https://img.example/i.png\"/>\n        </item>\n        ";
    assert_eq!(ep.to_string(), expected);
}

#[test]
fn channel_renders_exactly_at_fixed_instant() {
    let ep = Episode {
        id: 3,
        brand_id: 1,
        title: "T".to_owned(),
        description: "D".to_owned(),
        duration: "1:00".to_owned(),
        published: "Thu, 01 Jan 1970 00:00:00 +0000".to_owned(),
        image: "https://img.example/i.png".to_owned(),
        media_url: "https://vgtrk-podcast.cdnvideo.ru/audio/listen?id=3".to_owned(),
        media_size: 77,
    };
    let item = ep.to_string();
    let p = Podcast::assemble(
        1,
        "\"Show & Tell\"".to_owned(),
        "About <things>".to_owned(),
        "\"https://img.example/c.png\"".to_owned(),
        vec![ep],
    );
    assert_eq!(p.link, "https://smotrim.ru/brand/1");
    let body = p.render_at(0);
    let expected = format!(
        "<?xml version='1.0' encoding='UTF-8'?>\n<rss xmlns:atom=\"http://www.w3.org/2005/Atom\" xmlns:content=\"http://purl.org/rss/1.0/modules/content/\" xmlns:itunes=\"http://www.itunes.com/dtds/podcast-1.0.dtd\" xmlns:dc=\"http://purl.org/dc/elements/1.1/\" xmlns:podcast=\"https://podcastindex.org/namespace/1.0\" version=\"2.0\">\n<channel>\n    <title>&quot;Show &amp; Tell&quot;</title>\n    <link>https://smotrim.ru/brand/1</link>\n    <description>About &lt;things&gt;</description>\n    <lastBuildDate>Thu, 01 Jan 1970 00:00:00 +0000</lastBuildDate>\n    <itunes:explicit>yes</itunes:explicit>\n    <itunes:image href=\"https://img.example/c.png\"/>\n    <itunes:owner>\n        <itunes:name>Sergey</itunes:name>\n        <itunes:email>me@coyotle.ru</itunes:email>\n    </itunes:owner>\n    <language>ru-RU</language>\n    <generator>smotrim_rss_proxy v0.1.0</generator>\n    <docs>http://www.rssboard.org/rss-specification</docs>\n    <podcast:funding url=\"https://pay.cloudtips.ru/p/a368e9f8\">Поддержите работу проекта</podcast:funding>\n    {}\n</channel>\n</rss>",
        item
    );
    assert_eq!(body, expected);
}

#[test]
fn clock_render_has_feed_shape() {
    let p = Podcast::assemble(
        4,
        "\"t\"".to_owned(),
        String::new(),
        "\"i\"".to_owned(),
        Vec::new(),
    );
    let body = p.to_string();
    assert!(body.starts_with("<?xml version='1.0' encoding='UTF-8'?>"));
    assert!(body.ends_with("</rss>"));
    assert!(body.contains("<lastBuildDate>"));
}

#[test]
fn stored_size_never_probes() {
    let mut enr = Enricher::new(9, vec![entry(5, "false", "t", "\"05 февраля 2025\"")], TODAY);
    let a = enr.advance();
    match a {
        EnrichAction::QuerySize { id } => assert_eq!(id, 5),
        _ => panic!("expected a store lookup"),
    }
    // A store hit settles the episode at once: no probe follows.
    let a = enr.size_found(Some(123));
    assert!(matches!(a, EnrichAction::Continue));
    let a = enr.advance();
    assert!(matches!(a, EnrichAction::Finished));
    let eps = enr.take_episodes();
    assert_eq!(eps.len(), 1);
    assert_eq!(eps[0].media_size, 123);
}

#[test]
fn store_miss_probes_and_persists() {
    let mut enr = Enricher::new(9, vec![entry(6, "false", "t", "\"05 февраля 2025\"")], TODAY);
    assert!(matches!(enr.advance(), EnrichAction::QuerySize { id: 6 }));
    let a = enr.size_found(None);
    match a {
        EnrichAction::Probe { url } => {
            assert_eq!(url, "https://vgtrk-podcast.cdnvideo.ru/audio/listen?id=6")
        },
        _ => panic!("expected a probe"),
    }
    let a = enr.probe_result(Some(777));
    match a {
        EnrichAction::Persist { record } => {
            assert_eq!(record.id, 6);
            assert_eq!(record.size, 777);
            assert_eq!(record.brand_id, 9);
            assert_eq!(record.published, "Tue, 04 Feb 2025 21:00:00 +0000");
        },
        _ => panic!("expected a persist"),
    }
    assert!(matches!(enr.persist_done(true), EnrichAction::Continue));
    assert!(matches!(enr.advance(), EnrichAction::Finished));
    let eps = enr.take_episodes();
    assert_eq!(eps.len(), 1);
    assert_eq!(eps[0].media_size, 777);
}

#[test]
fn inactive_entries_are_left_out() {
    // The flag's polarity as observed upstream: token text `true` skips.
    let mut enr = Enricher::new(
        9,
        vec![
            entry(1, "true", "skipped", "\"05 февраля 2025\""),
            entry(2, "false", "kept", "\"05 февраля 2025\""),
        ],
        TODAY,
    );
    assert!(matches!(enr.advance(), EnrichAction::QuerySize { id: 2 }));
    assert!(matches!(enr.size_found(Some(1)), EnrichAction::Continue));
    assert!(matches!(enr.advance(), EnrichAction::Finished));
    let eps = enr.take_episodes();
    assert_eq!(eps.len(), 1);
    assert_eq!(eps[0].id, 2);
}

#[test]
fn failed_probe_drops_only_that_entry() {
    let mut enr = Enricher::new(
        9,
        vec![
            entry(11, "false", "first", "\"05 февраля 2025\""),
            entry(22, "false", "second", "\"05 февраля 2025\""),
            entry(33, "false", "third", "\"05 февраля 2025\""),
        ],
        TODAY,
    );
    assert!(matches!(enr.advance(), EnrichAction::QuerySize { id: 11 }));
    assert!(matches!(enr.size_found(Some(100)), EnrichAction::Continue));
    assert!(matches!(enr.advance(), EnrichAction::QuerySize { id: 22 }));
    assert!(matches!(enr.size_found(None), EnrichAction::Probe { .. }));
    // The probe fails: this entry alone is dropped, the pass goes on.
    assert!(matches!(enr.probe_result(None), EnrichAction::Continue));
    assert!(matches!(enr.advance(), EnrichAction::QuerySize { id: 33 }));
    assert!(matches!(enr.size_found(None), EnrichAction::Probe { .. }));
    assert!(matches!(
        enr.probe_result(Some(300)),
        EnrichAction::Persist { .. }
    ));
    assert!(matches!(enr.persist_done(true), EnrichAction::Continue));
    assert!(matches!(enr.advance(), EnrichAction::Finished));
    let eps = enr.take_episodes();
    assert_eq!(eps.len(), 2);
    assert_eq!(eps[0].id, 11);
    assert_eq!(eps[1].id, 33);
    // The rendered feed holds the other entries and omits the failed one.
    let p = Podcast::assemble(9, "\"t\"".to_owned(), String::new(), "\"i\"".to_owned(), eps);
    let body = p.render_at(0);
    assert!(body.contains("listen?id=11"));
    assert!(body.contains("listen?id=33"));
    assert!(!body.contains("listen?id=22"));
}

#[test]
fn date_failure_aborts_the_feed() {
    let mut enr = Enricher::new(
        9,
        vec![
            entry(1, "false", "ok", "\"05 февраля 2025\""),
            entry(2, "false", "bad", "\"nonsense\""),
        ],
        TODAY,
    );
    assert!(matches!(enr.advance(), EnrichAction::QuerySize { .. }));
    assert!(matches!(enr.size_found(Some(10)), EnrichAction::Continue));
    assert!(matches!(enr.advance(), EnrichAction::QuerySize { .. }));
    assert!(matches!(enr.size_found(Some(20)), EnrichAction::Abort { .. }));
}

#[test]
fn persist_failure_aborts_the_feed() {
    let mut enr = Enricher::new(9, vec![entry(6, "false", "t", "\"05 февраля 2025\"")], TODAY);
    assert!(matches!(enr.advance(), EnrichAction::QuerySize { .. }));
    assert!(matches!(enr.size_found(None), EnrichAction::Probe { .. }));
    assert!(matches!(
        enr.probe_result(Some(1)),
        EnrichAction::Persist { .. }
    ));
    assert!(matches!(enr.persist_done(false), EnrichAction::Abort { .. }));
}
