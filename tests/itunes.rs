use feed_itunes::duration::Duration;
use feed_itunes::element::{Element, Namespace, ReadError};
use feed_itunes::itunes::{
    handle_author, handle_category, handle_duration, handle_explicit, handle_image,
    handle_itunes_channel_element, handle_itunes_item_element, itunes_tag, ItunesTag,
};
use feed_itunes::model::{Category, Feed, Image, MediaCredit, MediaObject, MediaRating, MediaThumbnail};

fn itunes(tag: &str) -> Element {
    Element::new(Some(Namespace::Itunes), tag)
}

fn with_href(tag: &str, href: &str) -> Element {
    itunes(tag).with_attribute("href", href)
}

fn thumbnail(uri: &str) -> MediaThumbnail {
    MediaThumbnail { image: Image { uri: uri.to_string() } }
}

fn credit(name: &str) -> MediaCredit {
    MediaCredit { entity: name.to_string() }
}

#[test]
fn explicit_true_any_case() {
    for token in ["true", "True", "TRUE", "tRuE"] {
        let r = handle_explicit(itunes("explicit").with_text(token));
        assert_eq!(r, Some(MediaRating { urn: "itunes".to_string(), value: token.to_string() }));
    }
}

#[test]
fn explicit_other_tokens_rejected() {
    for token in ["false", "1", "", "yes", "truee", " true", "tru"] {
        assert_eq!(handle_explicit(itunes("explicit").with_text(token)), None);
    }
    assert_eq!(handle_explicit(itunes("explicit")), None);
}

#[test]
fn image_from_href() {
    assert_eq!(handle_image(with_href("image", "http://x/a.png")), Some(thumbnail("http://x/a.png")));
    assert_eq!(handle_image(itunes("image").with_attribute("src", "http://x/a.png")), None);
}

#[test]
fn first_attribute_of_a_name_counts() {
    let e = itunes("image").with_attribute("href", "first").with_attribute("href", "second");
    assert_eq!(e.attr_value("href"), Some("first".to_string()));
    assert_eq!(e.attr_value("missing"), None);
}

#[test]
fn category_from_text() {
    let e = itunes("category").with_attribute("text", "Tech");
    assert_eq!(handle_category(e), Some(Category { term: "Tech".to_string() }));
    assert_eq!(handle_category(itunes("category")), None);
}

#[test]
fn author_from_child_text() {
    assert_eq!(handle_author(itunes("author").with_text("Jane Doe")), Some(credit("Jane Doe")));
    assert_eq!(handle_author(itunes("author").with_text("")), None);
    assert_eq!(handle_author(itunes("author")), None);
}

#[test]
fn duration_from_child_text() {
    assert_eq!(
        handle_duration(itunes("duration").with_text("1:02:03")),
        Some(Duration { secs: 3723, nanos: 0 })
    );
    assert_eq!(handle_duration(itunes("duration").with_text("abc")), None);
    assert_eq!(handle_duration(itunes("duration")), None);
}

#[test]
fn tags_recognised() {
    assert_eq!(itunes_tag(&itunes("image")), Some(ItunesTag::Image));
    assert_eq!(itunes_tag(&itunes("category")), Some(ItunesTag::Category));
    assert_eq!(itunes_tag(&itunes("explicit")), Some(ItunesTag::Explicit));
    assert_eq!(itunes_tag(&itunes("title")), Some(ItunesTag::Title));
    assert_eq!(itunes_tag(&itunes("duration")), Some(ItunesTag::Duration));
    assert_eq!(itunes_tag(&itunes("author")), Some(ItunesTag::Author));
    assert_eq!(itunes_tag(&itunes("summary")), Some(ItunesTag::Summary));
    assert_eq!(itunes_tag(&itunes("subtitle")), None);
    assert_eq!(itunes_tag(&itunes("Image")), None);
    assert_eq!(itunes_tag(&Element::new(Some(Namespace::MediaRss), "image")), None);
    assert_eq!(itunes_tag(&Element::new(None, "image")), None);
}

#[test]
fn channel_logo_set_when_unset() {
    let mut feed = Feed::new();
    assert!(handle_itunes_channel_element(with_href("image", "http://x/logo.png"), &mut feed).is_ok());
    assert_eq!(feed.logo, Some(Image { uri: "http://x/logo.png".to_string() }));
}

#[test]
fn channel_logo_kept_when_set() {
    let mut feed = Feed::new();
    feed.logo = Some(Image::new("http://x/base.png".to_string()));
    assert!(handle_itunes_channel_element(with_href("image", "http://x/logo.png"), &mut feed).is_ok());
    assert_eq!(feed.logo, Some(Image { uri: "http://x/base.png".to_string() }));
}

#[test]
fn channel_logo_first_image_wins() {
    let mut feed = Feed::new();
    handle_itunes_channel_element(with_href("image", "http://x/a.png"), &mut feed).unwrap();
    handle_itunes_channel_element(with_href("image", "http://x/b.png"), &mut feed).unwrap();
    assert_eq!(feed.logo, Some(Image { uri: "http://x/a.png".to_string() }));
}

#[test]
fn channel_image_without_href_leaves_logo_unset() {
    let mut feed = Feed::new();
    handle_itunes_channel_element(itunes("image"), &mut feed).unwrap();
    assert_eq!(feed, Feed::new());
}

#[test]
fn channel_rating_set_when_unset() {
    let mut feed = Feed::new();
    handle_itunes_channel_element(itunes("explicit").with_text("Yes"), &mut feed).unwrap();
    assert_eq!(feed.rating, None);
    handle_itunes_channel_element(itunes("explicit").with_text("TRUE"), &mut feed).unwrap();
    assert_eq!(feed.rating, Some(MediaRating { urn: "itunes".to_string(), value: "TRUE".to_string() }));
}

#[test]
fn channel_rating_kept_when_set() {
    let mut feed = Feed::new();
    let media = MediaRating { urn: "urn:simple".to_string(), value: "adult".to_string() };
    feed.rating = Some(media.clone());
    handle_itunes_channel_element(itunes("explicit").with_text("true"), &mut feed).unwrap();
    assert_eq!(feed.rating, Some(media));
}

#[test]
fn channel_categories_in_order() {
    let mut feed = Feed::new();
    handle_itunes_channel_element(itunes("category").with_attribute("text", "Tech"), &mut feed).unwrap();
    handle_itunes_channel_element(itunes("category").with_attribute("text", "News"), &mut feed).unwrap();
    handle_itunes_channel_element(itunes("category").with_attribute("text", "Tech"), &mut feed).unwrap();
    let terms: Vec<&str> = feed.categories.iter().map(|c| c.term.as_str()).collect();
    assert_eq!(terms, vec!["Tech", "News", "Tech"]);
}

#[test]
fn channel_unknown_elements_skipped() {
    let mut feed = Feed::new();
    feed.logo = Some(Image::new("http://x/base.png".to_string()));
    let before = feed.clone();
    let elements = vec![
        itunes("subtitle").with_text("hello"),
        itunes("title").with_text("A title"),
        itunes("author").with_text("Jane"),
        Element::new(Some(Namespace::MediaRss), "category").with_attribute("text", "Tech"),
        Element::new(None, "explicit").with_text("true"),
    ];
    for e in elements {
        assert!(handle_itunes_channel_element(e, &mut feed).is_ok());
    }
    assert_eq!(feed, before);
}

#[test]
fn item_credits_accumulate_in_order() {
    let mut media = MediaObject::new();
    for name in ["Alice", "Bob", "Carol"] {
        handle_itunes_item_element(itunes("author").with_text(name), &mut media).unwrap();
    }
    assert_eq!(media.credits, vec![credit("Alice"), credit("Bob"), credit("Carol")]);
}

#[test]
fn item_empty_author_skipped() {
    let mut media = MediaObject::new();
    handle_itunes_item_element(itunes("author").with_text(""), &mut media).unwrap();
    assert!(media.credits.is_empty());
}

#[test]
fn item_duration_first_wins() {
    let mut media = MediaObject::new();
    handle_itunes_item_element(itunes("duration").with_text("1:00"), &mut media).unwrap();
    handle_itunes_item_element(itunes("duration").with_text("2:00"), &mut media).unwrap();
    assert_eq!(media.duration, Some(Duration { secs: 60, nanos: 0 }));
}

#[test]
fn item_duration_first_valid_wins() {
    let mut media = MediaObject::new();
    handle_itunes_item_element(itunes("duration").with_text("soon"), &mut media).unwrap();
    assert_eq!(media.duration, None);
    handle_itunes_item_element(itunes("duration").with_text("45"), &mut media).unwrap();
    handle_itunes_item_element(itunes("duration").with_text("50"), &mut media).unwrap();
    assert_eq!(media.duration, Some(Duration { secs: 45, nanos: 0 }));
}

#[test]
fn item_thumbnails_in_order() {
    let mut media = MediaObject::new();
    handle_itunes_item_element(with_href("image", "http://x/a.png"), &mut media).unwrap();
    handle_itunes_item_element(with_href("image", "http://x/b.png"), &mut media).unwrap();
    assert_eq!(media.thumbnails, vec![thumbnail("http://x/a.png"), thumbnail("http://x/b.png")]);
}

#[test]
fn item_title_last_wins() {
    let mut media = MediaObject::new();
    handle_itunes_item_element(itunes("title").with_text("First"), &mut media).unwrap();
    handle_itunes_item_element(itunes("title").with_text("Second"), &mut media).unwrap();
    assert_eq!(media.title, Some("Second".to_string()));
    handle_itunes_item_element(itunes("title"), &mut media).unwrap();
    assert_eq!(media.title, None);
}

#[test]
fn item_summary_overwrites_description() {
    let mut media = MediaObject::new();
    media.description = Some("from the media namespace".to_string());
    let e = itunes("summary").with_content(Ok(Some("Normalised summary".to_string())));
    handle_itunes_item_element(e, &mut media).unwrap();
    assert_eq!(media.description, Some("Normalised summary".to_string()));
}

#[test]
fn item_read_error_propagates() {
    let mut media = MediaObject::new();
    media.title = Some("Kept".to_string());
    let err = ReadError { message: "unexpected end of input".to_string() };
    let r = handle_itunes_item_element(itunes("title").with_content(Err(err.clone())), &mut media);
    assert_eq!(r, Err(err.clone()));
    assert_eq!(media.title, Some("Kept".to_string()));
    let r = handle_itunes_item_element(itunes("summary").with_content(Err(err.clone())), &mut media);
    assert_eq!(r, Err(err));
    assert_eq!(media.description, None);
}

#[test]
fn item_read_error_ignored_elsewhere() {
    let mut media = MediaObject::new();
    let err = ReadError { message: "broken".to_string() };
    let e = itunes("author").with_text("Dana").with_content(Err(err));
    assert!(handle_itunes_item_element(e, &mut media).is_ok());
    assert_eq!(media.credits, vec![credit("Dana")]);
}

#[test]
fn item_unknown_elements_skipped() {
    let mut media = MediaObject::new();
    media.title = Some("T".to_string());
    let before = media.clone();
    let elements = vec![
        itunes("subtitle").with_text("hello"),
        itunes("category").with_attribute("text", "Tech"),
        itunes("explicit").with_text("true"),
        Element::new(Some(Namespace::MediaRss), "title").with_text("Other"),
        Element::new(None, "author").with_text("Jane"),
    ];
    for e in elements {
        assert!(handle_itunes_item_element(e, &mut media).is_ok());
    }
    assert_eq!(media, before);
}

#[test]
fn channel_and_item_scenario() {
    let mut feed = Feed::new();
    handle_itunes_channel_element(itunes("category").with_attribute("text", "Tech"), &mut feed).unwrap();
    handle_itunes_channel_element(itunes("category").with_attribute("text", "News"), &mut feed).unwrap();
    assert_eq!(feed.categories, vec![Category::new("Tech"), Category::new("News")]);

    let mut media = MediaObject::new();
    handle_itunes_item_element(with_href("image", "http://x/a.png"), &mut media).unwrap();
    handle_itunes_item_element(with_href("image", "http://x/b.png"), &mut media).unwrap();
    assert_eq!(media.thumbnails.len(), 2);
    assert_eq!(media.thumbnails[0], thumbnail("http://x/a.png"));
    assert_eq!(media.thumbnails[1], thumbnail("http://x/b.png"));
}
