use workflows::atom::{cutoff_millis, join_comma, Atom};
use workflows::dict::Dict;
use workflows::feed::{fan_out, FeedEntry};
use workflows::rss::Rss;
use workflows::strutil::{parse_bool, parse_i64};

fn dict_of(pairs: &[(&str, &str)]) -> Dict {
    let mut d = Dict::new();
    for (k, v) in pairs {
        d.insert(k.to_string(), v.to_string());
    }
    d
}

fn entry(title: &str, link: &str, published: Option<i64>) -> FeedEntry {
    FeedEntry {
        title: title.to_string(),
        link: link.to_string(),
        published,
    }
}

const T1: i64 = 1_577_836_800_000; // 2020-01-01T00:00:00Z
const T2: i64 = 1_580_601_600_000; // 2020-02-02T00:00:00Z
const T3: i64 = 1_583_193_600_000; // 2020-03-03T00:00:00Z

#[test]
fn fan_out_stops_at_first_entry_older_than_cutoff() {
    // entries newest first: t3 > t2 > t1, cutoff strictly between t1 and t2
    let entries = vec![
        entry("third", "l3", Some(T3)),
        entry("second", "l2", Some(T2)),
        entry("first", "l1", Some(T1)),
    ];
    let cutoff = (T1 + T2) / 2;
    let outs = fan_out(&entries, Some(cutoff));
    assert_eq!(outs.len(), 2);
    assert_eq!(outs[0].parameter("title"), "third");
    assert_eq!(outs[1].parameter("title"), "second");
    assert_eq!(outs[1].parameter("link"), "l2");
}

#[test]
fn fan_out_without_cutoff_walks_the_whole_feed() {
    let entries = vec![
        entry("a", "la", Some(T3)),
        entry("b", "lb", Some(T1)),
        entry("c", "lc", None),
    ];
    let outs = fan_out(&entries, None);
    assert_eq!(outs.len(), 3);
}

#[test]
fn fan_out_stops_rather_than_skips() {
    // an old entry in the middle hides everything after it, even newer ones
    let entries = vec![
        entry("new", "l1", Some(T3)),
        entry("old", "l2", Some(T1)),
        entry("new-again", "l3", Some(T3)),
    ];
    let outs = fan_out(&entries, Some(T2));
    assert_eq!(outs.len(), 1);
    assert_eq!(outs[0].parameter("title"), "new");
}

#[test]
fn undated_entries_never_stop_the_walk() {
    let entries = vec![
        entry("dated", "l1", Some(T3)),
        entry("undated", "l2", None),
        entry("late", "l3", Some(T3)),
    ];
    let outs = fan_out(&entries, Some(T2));
    assert_eq!(outs.len(), 3);
}

#[test]
fn fan_out_of_empty_feed_is_empty() {
    let outs = fan_out(&Vec::new(), Some(T2));
    assert!(outs.is_empty());
}

const ATOM_FEED: &str = r#"<?xml version="1.0" encoding="utf-8"?>
<feed xmlns="http://www.w3.org/2005/Atom">
  <title>example</title>
  <id>urn:example:feed</id>
  <updated>2020-03-03T00:00:00Z</updated>
  <entry>
    <title>third</title>
    <id>urn:example:3</id>
    <updated>2020-03-03T00:00:00Z</updated>
    <link href="http://example.com/3"/>
    <link href="http://mirror.example.com/3"/>
  </entry>
  <entry>
    <title>second</title>
    <id>urn:example:2</id>
    <updated>2020-02-02T00:00:00Z</updated>
    <link href="http://example.com/2"/>
  </entry>
  <entry>
    <title>first</title>
    <id>urn:example:1</id>
    <updated>2020-01-01T00:00:00Z</updated>
    <link href="http://example.com/1"/>
  </entry>
</feed>"#;

#[test]
fn atom_collect_without_cutoff_yields_every_entry() {
    let params = dict_of(&[("text", ATOM_FEED)]);
    let now = 1_600_000_000_000;
    let outs = Atom {}.collect_with_now(&params, now).unwrap();
    assert_eq!(outs.len(), 3);
    assert_eq!(outs[0].parameter("title"), "third");
    assert_eq!(
        outs[0].parameter("link"),
        "http://example.com/3,http://mirror.example.com/3"
    );
    assert_eq!(outs[2].parameter("title"), "first");
    assert_eq!(outs[2].parameter("link"), "http://example.com/1");
}

#[test]
fn atom_collect_applies_the_cutoff() {
    // choose now and schedule_in_secs so the cutoff lands between t1 and t2
    let now: i64 = 1_600_000_000_000;
    let cutoff = (T1 + T2) / 2;
    let secs = (now - cutoff) / 1000;
    let secs_text = secs.to_string();
    let params = dict_of(&[("text", ATOM_FEED), ("schedule_in_secs", &secs_text)]);
    let outs = Atom {}.collect_with_now(&params, now).unwrap();
    assert_eq!(outs.len(), 2);
    assert_eq!(outs[0].parameter("title"), "third");
    assert_eq!(outs[1].parameter("title"), "second");
}

#[test]
fn atom_collect_rejects_text_that_is_no_feed() {
    let params = dict_of(&[("text", "not a feed at all")]);
    assert!(Atom {}.collect_with_now(&params, 0).is_err());
}

#[test]
fn atom_collect_against_the_real_clock() {
    let params = dict_of(&[("text", ATOM_FEED)]);
    // without a cutoff the clock reading cannot matter
    let outs = Atom {}.collect(&params).unwrap();
    assert_eq!(outs.len(), 3);
}

const RSS_FEED: &str = r#"<?xml version="1.0" encoding="utf-8"?>
<rss version="2.0">
  <channel>
    <title>example</title>
    <link>http://example.com</link>
    <description>example channel</description>
    <item>
      <title>third</title>
      <link>http://example.com/3</link>
      <pubDate>Tue, 03 Mar 2020 00:00:00 +0000</pubDate>
    </item>
    <item>
      <title>second</title>
      <link>http://example.com/2</link>
      <pubDate>Sun, 02 Feb 2020 00:00:00 +0000</pubDate>
    </item>
    <item>
      <title>first</title>
      <link>http://example.com/1</link>
      <pubDate>Wed, 01 Jan 2020 00:00:00 +0000</pubDate>
    </item>
  </channel>
</rss>"#;

#[test]
fn rss_collect_applies_the_cutoff_through_rfc2822_dates() {
    let now: i64 = 1_600_000_000_000;
    let cutoff = (T1 + T2) / 2;
    let secs = (now - cutoff) / 1000;
    let secs_text = secs.to_string();
    let params = dict_of(&[("text", RSS_FEED), ("schedule_in_secs", &secs_text)]);
    let outs = Rss {}.collect_with_now(&params, now).unwrap();
    assert_eq!(outs.len(), 2);
    assert_eq!(outs[0].parameter("title"), "third");
    assert_eq!(outs[0].parameter("link"), "http://example.com/3");
    assert_eq!(outs[1].parameter("title"), "second");
}

#[test]
fn rss_item_with_unparseable_date_never_stops_the_walk() {
    let feed = r#"<?xml version="1.0" encoding="utf-8"?>
<rss version="2.0">
  <channel>
    <title>example</title>
    <link>http://example.com</link>
    <description>d</description>
    <item><title>a</title><link>l</link><pubDate>not a date</pubDate></item>
    <item><title>b</title><link>l</link><pubDate>Tue, 03 Mar 2020 00:00:00 +0000</pubDate></item>
  </channel>
</rss>"#;
    let params = dict_of(&[("text", feed), ("schedule_in_secs", "10")]);
    // cutoff far in the future: every dated item is older and stops the
    // walk, but the undated first item passes through
    let outs = Rss {}.collect_with_now(&params, 2_000_000_000_000).unwrap();
    assert_eq!(outs.len(), 1);
    assert_eq!(outs[0].parameter("title"), "a");
}

#[test]
fn rss_collect_rejects_text_that_is_no_channel() {
    let params = dict_of(&[("text", "<html></html>")]);
    assert!(Rss {}.collect_with_now(&params, 0).is_err());
}

#[test]
fn join_comma_joins_in_order() {
    assert_eq!(join_comma(&Vec::new()), "");
    assert_eq!(join_comma(&vec!["a".to_string()]), "a");
    assert_eq!(
        join_comma(&vec!["a".to_string(), "b".to_string(), "c".to_string()]),
        "a,b,c"
    );
}

#[test]
fn parse_i64_accepts_signed_decimals_and_rejects_the_rest() {
    assert_eq!(parse_i64("123"), Some(123));
    assert_eq!(parse_i64("-5"), Some(-5));
    assert_eq!(parse_i64("+7"), Some(7));
    assert_eq!(parse_i64("00042"), Some(42));
    assert_eq!(parse_i64("0"), Some(0));
    assert_eq!(parse_i64("-0000"), Some(0));
    assert_eq!(parse_i64("9223372036854775807"), Some(i64::MAX));
    assert_eq!(parse_i64("-9223372036854775808"), Some(i64::MIN));
    assert_eq!(parse_i64("9223372036854775808"), None);
    assert_eq!(parse_i64("-9223372036854775809"), None);
    assert_eq!(parse_i64("99999999999999999999999"), None);
    assert_eq!(parse_i64(""), None);
    assert_eq!(parse_i64("-"), None);
    assert_eq!(parse_i64("+"), None);
    assert_eq!(parse_i64("12a"), None);
    assert_eq!(parse_i64(" 12"), None);
    assert_eq!(parse_i64("1.5"), None);
}

#[test]
fn parse_bool_accepts_exactly_the_two_literals() {
    assert_eq!(parse_bool("true"), Some(true));
    assert_eq!(parse_bool("false"), Some(false));
    assert_eq!(parse_bool("True"), None);
    assert_eq!(parse_bool("1"), None);
    assert_eq!(parse_bool(""), None);
}

#[test]
fn cutoff_saturates_instead_of_overflowing() {
    // an enormous schedule pushes the cutoff to the bottom of the range
    assert_eq!(cutoff_millis("9223372036854775807", 0), Some(i64::MIN));
    // a huge negative schedule pushes it to the top
    assert_eq!(cutoff_millis("-9223372036854775808", 0), Some(i64::MAX));
    assert_eq!(cutoff_millis("10", 20_000), Some(10_000));
    assert_eq!(cutoff_millis("junk", 20_000), None);
}
