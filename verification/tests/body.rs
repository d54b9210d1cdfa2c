use pin_cushion::body::{holds_word, is_readable};
use pin_cushion::error::Error;
use pin_cushion::feed::{parse_feed, FeedItem};

const BOARD: &str = r#"<?xml version="1.0" encoding="utf-8"?>
<rss version="2.0" xmlns:atom="http://www.w3.org/2005/Atom"><channel><title>Board: cats</title><link>https://www.pinterest.com/owner/cats/</link><description></description><atom:link href="https://www.pinterest.com/owner/cats.rss" rel="self"></atom:link><language>en-us</language><lastBuildDate>Thu, 23 Apr 2020 17:09:47 +0000</lastBuildDate><item><title>A cat</title><link>https://www.pinterest.com/pin/2/</link><description>&lt;a href="https://www.pinterest.com/pin/2/"&gt;&lt;img src="https://i.pinimg.com/236x/aa/bb/cc/two.jpg"&gt;&lt;/a&gt;</description><pubDate>Thu, 23 Apr 2020 17:09:47 +0000</pubDate><guid>https://www.pinterest.com/pin/2/</guid></item><item><title>Another</title><link>https://www.pinterest.com/pin/1/</link><description><![CDATA[<a href="https://www.pinterest.com/pin/1/"><img src="https://i.pinimg.com/236x/aa/bb/cc/one.jpg"></a>]]></description><guid>https://www.pinterest.com/pin/1/</guid></item></channel></rss>"#;

fn feed_with(inside_channel: &str, root_attributes: &str) -> String {
    format!(
        r#"<rss version="2.0"{}><channel><title>t</title>{}<item><guid>one</guid><description>first</description></item></channel></rss>"#,
        root_attributes, inside_channel
    )
}

fn one_item() -> Vec<FeedItem> {
    vec![FeedItem { id: Some(String::from("one")), content: Some(String::from("first")) }]
}

#[test]
fn word_is_found_wherever_it_stands() {
    assert!(holds_word(b"updatePeriod", b"updatePeriod"));
    assert!(holds_word(b"<sy:updatePeriod>", b"updatePeriod"));
    assert!(holds_word(b"xxupdatePeriod", b"updatePeriod"));
    assert!(holds_word(b"abc", b""));
    assert!(holds_word(b"", b""));
    assert!(holds_word(b"aab", b"ab"));
}

#[test]
fn word_that_does_not_stand_is_not_found() {
    assert!(!holds_word(b"updatePerio", b"updatePeriod"));
    assert!(!holds_word(b"updatePeriox updateperiod", b"updatePeriod"));
    assert!(!holds_word(b"", b"a"));
    assert!(!holds_word(b"ab", b"ba"));
}

#[test]
fn board_feed_is_readable_and_read() {
    assert!(is_readable(BOARD.as_bytes()));
    let items = parse_feed(BOARD.as_bytes()).unwrap();
    assert_eq!(
        items,
        vec![
            FeedItem {
                id: Some(String::from("https://www.pinterest.com/pin/2/")),
                content: Some(String::from(
                    r#"<a href="https://www.pinterest.com/pin/2/"><img src="https://i.pinimg.com/236x/aa/bb/cc/two.jpg"></a>"#
                )),
            },
            FeedItem {
                id: Some(String::from("https://www.pinterest.com/pin/1/")),
                content: Some(String::from(
                    r#"<a href="https://www.pinterest.com/pin/1/"><img src="https://i.pinimg.com/236x/aa/bb/cc/one.jpg"></a>"#
                )),
            },
        ]
    );
}

#[test]
fn prefixed_element_that_closes_itself_is_read() {
    let body = feed_with(
        r#"<atom:link href="https://example.com/feed" rel="self" type="application/rss+xml" /><dc:creator>someone</dc:creator>"#,
        r#" xmlns:atom="http://www.w3.org/2005/Atom" xmlns:dc="http://purl.org/dc/elements/1.1/""#,
    );
    assert!(is_readable(body.as_bytes()));
    assert_eq!(parse_feed(body.as_bytes()), Ok(one_item()));
}

#[test]
fn prefixed_element_with_marks_in_its_attributes_is_read() {
    let body = feed_with(
        r#"<a:b c="x > y" d='e:f / g'>text</a:b>"#,
        r#" xmlns:a="http://example.com/a""#,
    );
    assert!(is_readable(body.as_bytes()));
    assert_eq!(parse_feed(body.as_bytes()), Ok(one_item()));
}

#[test]
fn tag_in_an_attribute_of_a_prefixed_element_is_taken_for_a_tag() {
    let body = feed_with(r#"<a:b c="<e:f><g>">text</a:b>"#, "");
    assert!(!is_readable(body.as_bytes()));
    assert_eq!(parse_feed(body.as_bytes()), Err(Error::RssError));
    let body = feed_with(r#"<a:b c="<e>">text</a:b>"#, "");
    assert!(!is_readable(body.as_bytes()));
}

#[test]
fn name_that_runs_into_a_tag_counts_as_prefixed() {
    assert!(!is_readable(b"<rss><channel><a</b:c><d>e</d></a</b:c></channel></rss>"));
    assert!(!is_readable(b"<rss><channel><a<b ></a<b></channel></rss>"));
    assert!(is_readable(b"<rss><channel><a <b ></a></channel></rss>"));
}

#[test]
fn long_run_of_tags_is_looked_through_quickly() {
    let mut body = Vec::new();
    for _ in 0..200_000 {
        body.extend_from_slice(b"<a:a ");
    }
    body.extend_from_slice(b"></x>");
    assert!(!is_readable(&body));
    let mut body = Vec::new();
    for _ in 0..200_000 {
        body.extend_from_slice(b"<ab");
    }
    assert!(!is_readable(&body));
    let mut body = Vec::new();
    for _ in 0..200_000 {
        body.extend_from_slice(b"<a:b c='d'></a:b>");
    }
    assert!(is_readable(&body));
}

#[test]
fn update_period_is_not_handed_to_the_reader() {
    let body = feed_with(
        "<sy:updatePeriod>sometimes</sy:updatePeriod>",
        r#" xmlns:sy="http://purl.org/rss/1.0/modules/syndication/""#,
    );
    assert!(!is_readable(body.as_bytes()));
    assert_eq!(parse_feed(body.as_bytes()), Err(Error::RssError));
    let hourly = feed_with(
        "<sy:updatePeriod>hourly</sy:updatePeriod>",
        r#" xmlns:sy="http://purl.org/rss/1.0/modules/syndication/""#,
    );
    assert_eq!(parse_feed(hourly.as_bytes()), Err(Error::RssError));
}

#[test]
fn update_frequency_is_not_handed_to_the_reader() {
    let body = feed_with(
        "<sy:updateFrequency>often</sy:updateFrequency>",
        r#" xmlns:sy="http://purl.org/rss/1.0/modules/syndication/""#,
    );
    assert!(!is_readable(body.as_bytes()));
    assert_eq!(parse_feed(body.as_bytes()), Err(Error::RssError));
    let escaped = feed_with(
        "<s:updateFrequency>-1</s:updateFrequency>",
        r#" xmlns:s="http://purl.org/rss/1.0/modules/syndication&#47;""#,
    );
    assert_eq!(parse_feed(escaped.as_bytes()), Err(Error::RssError));
}

#[test]
fn element_inside_prefixed_element_is_not_handed_to_the_reader() {
    let body = feed_with("<a:b><c>d</c></a:b>", "");
    assert!(!is_readable(body.as_bytes()));
    assert_eq!(parse_feed(body.as_bytes()), Err(Error::RssError));
    let body = feed_with("<a:b><!-- note --><c/></a:b>", "");
    assert!(!is_readable(body.as_bytes()));
    let body = feed_with("<a:b>text<c:d/></a:b>", "");
    assert!(!is_readable(body.as_bytes()));
}

#[test]
fn deep_nesting_inside_prefixed_element_is_not_handed_to_the_reader() {
    let depth = 200_000;
    let mut inside = String::from("<a:b>");
    for _ in 0..depth {
        inside.push_str("<c>");
    }
    for _ in 0..depth {
        inside.push_str("</c>");
    }
    inside.push_str("</a:b>");
    let body = feed_with(&inside, "");
    assert!(!is_readable(body.as_bytes()));
    assert_eq!(parse_feed(body.as_bytes()), Err(Error::RssError));
}

#[test]
fn deep_nesting_without_prefix_is_skipped_by_the_reader() {
    let depth = 200_000;
    let mut inside = String::new();
    for _ in 0..depth {
        inside.push_str("<c>");
    }
    for _ in 0..depth {
        inside.push_str("</c>");
    }
    let body = feed_with(&inside, "");
    assert!(is_readable(body.as_bytes()));
    assert_eq!(parse_feed(body.as_bytes()), Ok(one_item()));
}

#[test]
fn name_with_quotation_mark_counts_as_prefixed() {
    assert!(!is_readable(br#"<rss><channel><a"b>c":d><e></e></a"b>c":d></channel></rss>"#));
    assert!(is_readable(br#"<rss><channel><a"b>c":d></a"b>c":d></channel></rss>"#));
}

#[test]
fn prefixed_tag_without_end_is_not_handed_to_the_reader() {
    assert!(!is_readable(b"<rss><channel><a:b c=\"d"));
    assert!(!is_readable(b"<a:b"));
    assert!(is_readable(b"<a:b>"));
    assert!(is_readable(b"<a:b><"));
    assert!(is_readable(b"<ab"));
    assert!(is_readable(b""));
    assert!(is_readable(b"<"));
}

#[test]
fn root_with_a_prefix_is_not_handed_to_the_reader() {
    let body = r#"<rdf:RDF xmlns:rdf="http://www.w3.org/1999/02/22-rdf-syntax-ns#"><channel><title>t</title></channel><item><title>i</title></item></rdf:RDF>"#;
    assert!(!is_readable(body.as_bytes()));
    assert_eq!(parse_feed(body.as_bytes()), Err(Error::RssError));
}

struct Dice(u64);

impl Dice {
    fn roll(&mut self, sides: usize) -> usize {
        self.0 ^= self.0 << 13;
        self.0 ^= self.0 >> 7;
        self.0 ^= self.0 << 17;
        (self.0 % sides as u64) as usize
    }

    fn pick<'a>(&mut self, from: &[&'a str]) -> &'a str {
        from[self.roll(from.len())]
    }
}

const NAMES: [&str; 40] = [
    "title", "link", "description", "guid", "item", "category", "enclosure", "source", "image",
    "textInput", "cloud", "skipHours", "skipDays", "hour", "day", "url", "language", "pubDate",
    "author", "comments", "ttl", "other", "a", "atom:link", "dc:creator", "dc:date",
    "itunes:category", "itunes:image", "itunes:owner", "itunes:name", "itunes:email",
    "itunes:explicit", "sy:updateBase", "sy:updatePeriod", "x:updateFrequency",
    "content:encoded", "media:content", ":odd", "x:", "a:b:c",
];

const ATTRIBUTES: [&str; 12] = [
    " href=\"https://example.com/a?b=c&amp;d=e\"", " text='Arts'", " isPermaLink=\"false\"",
    " url=\"u\" length=\"1\" type=\"image/png\"", " a:b=\"c\"", " x=\"a > b\"", " y='\"'",
    " domain=\"d\" port=\"80\"", " z", " w=", " v=\"&#x41;&lt;\"", "  ",
];

const SPACES: [&str; 6] = [
    "", " xmlns:atom=\"http://www.w3.org/2005/Atom\"",
    " xmlns:dc=\"http://purl.org/dc/elements/1.1/\"",
    " xmlns:itunes=\"http://www.itunes.com/dtds/podcast-1.0.dtd\"",
    " xmlns:sy=\"http://purl.org/rss/1.0/modules/syndication/\"",
    " xmlns:x=\"http://purl.org/rss/1.0/modules/syndication&#47;\"",
];

const TEXTS: [&str; 12] = [
    "", "text", " a: b ", "&lt;img src=\"https://i.pinimg.com/236x/a/b.jpg\"&gt;", "&amp;",
    "&#x1F600;", "\n  ", "<![CDATA[<a href='x'>y</a>]]>", "<!-- note -->", "<?pi ?>", "1", "hourly",
];

fn element(dice: &mut Dice, depth: usize, out: &mut String) {
    let name = dice.pick(&NAMES);
    out.push('<');
    out.push_str(name);
    for _ in 0..dice.roll(3) {
        out.push_str(dice.pick(&ATTRIBUTES));
    }
    if dice.roll(5) == 0 {
        out.push_str("/>");
        return;
    }
    out.push('>');
    let prefixed = name.contains(':');
    for _ in 0..dice.roll(4) {
        if depth < 4 && dice.roll(if prefixed { 12 } else { 2 }) == 0 {
            element(dice, depth + 1, out);
        } else {
            out.push_str(dice.pick(&TEXTS));
        }
    }
    out.push_str("</");
    out.push_str(name);
    out.push('>');
}

fn feed(dice: &mut Dice) -> Vec<u8> {
    let mut out = String::new();
    if dice.roll(2) == 0 {
        out.push_str("<?xml version=\"1.0\" encoding=\"utf-8\"?>\n");
    }
    out.push_str("<rss version=\"2.0\"");
    for _ in 0..dice.roll(3) {
        out.push_str(dice.pick(&SPACES));
    }
    out.push_str("><channel>");
    for _ in 0..dice.roll(8) {
        element(dice, 0, &mut out);
    }
    out.push_str("</channel></rss>");
    let mut body = out.into_bytes();
    match dice.roll(8) {
        0 => {
            let at = dice.roll(body.len());
            body[at] = dice.roll(256) as u8;
        }
        1 => {
            let at = dice.roll(body.len());
            let to = (at + dice.roll(12)).min(body.len());
            body.drain(at..to);
        }
        2 => {
            let at = dice.roll(body.len());
            let piece = dice.pick(&["<", ">", "\"", "'", "/", "<a:b>", "</", "<!", "]]>", "-->"]);
            for (i, b) in piece.bytes().enumerate() {
                body.insert(at + i, b);
            }
        }
        _ => {}
    }
    body
}

#[test]
fn every_readable_body_is_read_to_an_answer() {
    let mut dice = Dice(0x2545_f491_4f6c_dd1d);
    let mut read = 0;
    let mut feeds = 0;
    for _ in 0..400_000 {
        let body = feed(&mut dice);
        if is_readable(&body) {
            read += 1;
            if parse_feed(&body).is_ok() {
                feeds += 1;
            }
        } else {
            assert_eq!(parse_feed(&body), Err(Error::RssError));
        }
    }
    assert!(read > 10_000, "{}", read);
    assert!(feeds > 5_000, "{}", feeds);
}
