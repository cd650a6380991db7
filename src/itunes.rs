//! Extraction of values from `itunes:` elements and their merge into the
//! channel-level `Feed` and the item-level `MediaObject`.

use vstd::prelude::*;

use crate::duration::{npt_duration, parse_npt, Duration};
use crate::element::{attr_lookup, Element, Namespace, ReadError};
use crate::model::{
    opt_view, Category, Feed, FeedView, Image, MediaCredit, MediaObject, MediaObjectView,
    MediaRating, MediaThumbnail, RatingView,
};
use crate::text::{chars_of, same_text};

verus! {

/// The `itunes:` elements that the mergers recognise.
#[derive(Clone, Copy, Debug, PartialEq, Eq, Structural)]
pub enum ItunesTag {
    Image,
    Category,
    Explicit,
    Title,
    Duration,
    Author,
    Summary,
}

/// Which recognised element `e` is, if any.
pub open spec fn tag_of(e: Element) -> Option<ItunesTag> {
    if e.namespace != Some(Namespace::Itunes) {
        None
    } else if e.tag@ == "image"@ {
        Some(ItunesTag::Image)
    } else if e.tag@ == "category"@ {
        Some(ItunesTag::Category)
    } else if e.tag@ == "explicit"@ {
        Some(ItunesTag::Explicit)
    } else if e.tag@ == "title"@ {
        Some(ItunesTag::Title)
    } else if e.tag@ == "duration"@ {
        Some(ItunesTag::Duration)
    } else if e.tag@ == "author"@ {
        Some(ItunesTag::Author)
    } else if e.tag@ == "summary"@ {
        Some(ItunesTag::Summary)
    } else {
        None
    }
}

/// The image reference of an element: its `href` attribute.
pub open spec fn image_of(e: Element) -> Option<Seq<char>> {
    attr_lookup(e.attributes@, "href"@)
}

/// The category label of an element: its `text` attribute.
pub open spec fn category_of(e: Element) -> Option<Seq<char>> {
    attr_lookup(e.attributes@, "text"@)
}

/// `true` in any mix of upper and lower case.
pub open spec fn is_true_token(s: Seq<char>) -> bool {
    &&& s.len() == 4
    &&& (s[0] == 't' || s[0] == 'T')
    &&& (s[1] == 'r' || s[1] == 'R')
    &&& (s[2] == 'u' || s[2] == 'U')
    &&& (s[3] == 'e' || s[3] == 'E')
}

/// The explicit-rating value of an element: its child text, when that reads `true`.
pub open spec fn explicit_of(e: Element) -> Option<Seq<char>> {
    match e.child_text {
        Some(t) => if is_true_token(t@) {
            Some(t@)
        } else {
            None
        },
        None => None,
    }
}

/// The vocabulary identifier that explicit ratings carry.
pub open spec fn itunes_urn() -> Seq<char> {
    "itunes"@
}

/// The credited name of an element: its child text, when not empty.
pub open spec fn credit_of(e: Element) -> Option<Seq<char>> {
    match e.child_text {
        Some(t) => if t@.len() > 0 {
            Some(t@)
        } else {
            None
        },
        None => None,
    }
}

/// The duration of an element: its child text, decoded as a clock token.
pub open spec fn duration_of(e: Element) -> Option<Duration> {
    match e.child_text {
        Some(t) => npt_duration(t@),
        None => None,
    }
}

/// How a merger writes an extracted value into its field.
#[derive(Clone, Copy, Debug, PartialEq, Eq, Structural)]
pub enum MergePolicy {
    /// Singular field, written only while it is unset (first wins).
    SetIfAbsent,
    /// Singular field, written every time (last wins).
    Overwrite,
    /// Repeatable field, the value is added at the end.
    Append,
}

/// The merge policy of each element that the channel-level merger recognises.
pub open spec fn channel_policy_of(t: ItunesTag) -> Option<MergePolicy> {
    match t {
        ItunesTag::Image => Some(MergePolicy::SetIfAbsent),
        ItunesTag::Category => Some(MergePolicy::Append),
        ItunesTag::Explicit => Some(MergePolicy::SetIfAbsent),
        _ => None,
    }
}

/// The merge policy of each element that the item-level merger recognises.
pub open spec fn item_policy_of(t: ItunesTag) -> Option<MergePolicy> {
    match t {
        ItunesTag::Title => Some(MergePolicy::Overwrite),
        ItunesTag::Image => Some(MergePolicy::Append),
        ItunesTag::Duration => Some(MergePolicy::SetIfAbsent),
        ItunesTag::Author => Some(MergePolicy::Append),
        ItunesTag::Summary => Some(MergePolicy::Overwrite),
        _ => None,
    }
}

/// A singular field after a value is merged into it.
pub open spec fn single_after<A>(policy: MergePolicy, field: Option<A>, value: Option<A>) -> Option<A> {
    match policy {
        MergePolicy::SetIfAbsent => if field is None {
            value
        } else {
            field
        },
        MergePolicy::Overwrite => value,
        MergePolicy::Append => field,
    }
}

/// A repeatable field after a value is merged into it.
pub open spec fn repeated_after<A>(field: Seq<A>, value: Option<A>) -> Seq<A> {
    match value {
        Some(v) => field.push(v),
        None => field,
    }
}

/// The feed after a channel-level element: the logo, the categories and the
/// rating each take the extracted value under the element's policy;
/// anything else is left alone.
pub open spec fn channel_after(f: FeedView, e: Element) -> FeedView {
    match tag_of(e) {
        Some(ItunesTag::Image) => FeedView {
            logo: single_after(channel_policy_of(ItunesTag::Image)->0, f.logo, image_of(e)),
            ..f
        },
        Some(ItunesTag::Category) => FeedView {
            categories: repeated_after(f.categories, category_of(e)),
            ..f
        },
        Some(ItunesTag::Explicit) => FeedView {
            rating: single_after(
                channel_policy_of(ItunesTag::Explicit)->0,
                f.rating,
                match explicit_of(e) {
                    Some(v) => Some(RatingView { urn: itunes_urn(), value: v }),
                    None => None,
                },
            ),
            ..f
        },
        _ => f,
    }
}

/// The media object after an item-level element: the title, thumbnails,
/// duration, credits and description each take the extracted value under
/// the element's policy; anything else, and text content that could not be
/// read, leaves it alone.
pub open spec fn item_after(m: MediaObjectView, e: Element) -> MediaObjectView {
    match tag_of(e) {
        Some(ItunesTag::Title) => match e.content {
            Ok(t) => MediaObjectView {
                title: single_after(item_policy_of(ItunesTag::Title)->0, m.title, opt_view(t)),
                ..m
            },
            Err(_) => m,
        },
        Some(ItunesTag::Image) => MediaObjectView {
            thumbnails: repeated_after(m.thumbnails, image_of(e)),
            ..m
        },
        Some(ItunesTag::Duration) => MediaObjectView {
            duration: single_after(item_policy_of(ItunesTag::Duration)->0, m.duration, duration_of(e)),
            ..m
        },
        Some(ItunesTag::Author) => MediaObjectView {
            credits: repeated_after(m.credits, credit_of(e)),
            ..m
        },
        Some(ItunesTag::Summary) => match e.content {
            Ok(t) => MediaObjectView {
                description: single_after(
                    item_policy_of(ItunesTag::Summary)->0,
                    m.description,
                    opt_view(t),
                ),
                ..m
            },
            Err(_) => m,
        },
        _ => m,
    }
}

/// The outcome of an item-level element: only a read error met on text
/// content is passed on.
pub open spec fn item_outcome(e: Element) -> Result<(), ReadError> {
    match tag_of(e) {
        Some(ItunesTag::Title) | Some(ItunesTag::Summary) => match e.content {
            Ok(_) => Ok(()),
            Err(err) => Err(err),
        },
        _ => Ok(()),
    }
}

/// Recognises an `itunes:` element by its namespace and local name.
pub fn itunes_tag(element: &Element) -> (r: Option<ItunesTag>)
    ensures
        r == tag_of(*element),
{
    if !matches!(element.namespace, Some(Namespace::Itunes)) {
        return None;
    }
    let tag = element.tag.as_str();
    if same_text(tag, "image") {
        Some(ItunesTag::Image)
    } else if same_text(tag, "category") {
        Some(ItunesTag::Category)
    } else if same_text(tag, "explicit") {
        Some(ItunesTag::Explicit)
    } else if same_text(tag, "title") {
        Some(ItunesTag::Title)
    } else if same_text(tag, "duration") {
        Some(ItunesTag::Duration)
    } else if same_text(tag, "author") {
        Some(ItunesTag::Author)
    } else if same_text(tag, "summary") {
        Some(ItunesTag::Summary)
    } else {
        None
    }
}

/// Extracts an image from the `href` attribute.
pub fn handle_image(element: Element) -> (r: Option<MediaThumbnail>)
    ensures
        opt_view(r) == image_of(element),
{
    match element.attr_value("href") {
        Some(url) => Some(MediaThumbnail::new(Image::new(url))),
        None => None,
    }
}

/// Extracts a category from the `text` attribute.
pub fn handle_category(element: Element) -> (r: Option<Category>)
    ensures
        opt_view(r) == category_of(element),
{
    match element.attr_value("text") {
        Some(text) => Some(Category::new(text.as_str())),
        None => None,
    }
}

/// Whether `s` reads `true`, ignoring case.
fn is_true_text(s: &str) -> (r: bool)
    ensures
        r == is_true_token(s@),
{
    let cs = chars_of(s);
    cs.len() == 4 && (cs[0] == 't' || cs[0] == 'T') && (cs[1] == 'r' || cs[1] == 'R') && (cs[2]
        == 'u' || cs[2] == 'U') && (cs[3] == 'e' || cs[3] == 'E')
}

/// Extracts an explicit rating from the child text: only `true`, in any
/// case, gives one; any other token gives none.
pub fn handle_explicit(element: Element) -> (r: Option<MediaRating>)
    ensures
        opt_view(r) == match explicit_of(element) {
            Some(v) => Some(RatingView { urn: itunes_urn(), value: v }),
            None => None,
        },
{
    match element.child_text {
        Some(v) => {
            if is_true_text(v.as_str()) {
                Some(MediaRating { urn: "itunes".to_owned(), value: v })
            } else {
                None
            }
        },
        None => None,
    }
}

/// Extracts a credited name from non-empty child text.
pub fn handle_author(element: Element) -> (r: Option<MediaCredit>)
    ensures
        opt_view(r) == credit_of(element),
{
    match element.child_text {
        Some(t) => {
            if t.as_str().is_empty() {
                None
            } else {
                Some(MediaCredit::new(t))
            }
        },
        None => None,
    }
}

/// Extracts a duration by decoding the child text as a clock token.
pub fn handle_duration(element: Element) -> (r: Option<Duration>)
    ensures
        r == duration_of(element),
        r matches Some(d) ==> d.wf(),
{
    match element.child_text {
        Some(t) => parse_npt(t.as_str()),
        None => None,
    }
}

/// The channel-level merge policy of `tag`, if the channel-level merger recognises it.
pub fn channel_policy(tag: ItunesTag) -> (r: Option<MergePolicy>)
    ensures
        r == channel_policy_of(tag),
{
    match tag {
        ItunesTag::Image => Some(MergePolicy::SetIfAbsent),
        ItunesTag::Category => Some(MergePolicy::Append),
        ItunesTag::Explicit => Some(MergePolicy::SetIfAbsent),
        _ => None,
    }
}

/// The item-level merge policy of `tag`, if the item-level merger recognises it.
pub fn item_policy(tag: ItunesTag) -> (r: Option<MergePolicy>)
    ensures
        r == item_policy_of(tag),
{
    match tag {
        ItunesTag::Title => Some(MergePolicy::Overwrite),
        ItunesTag::Image => Some(MergePolicy::Append),
        ItunesTag::Duration => Some(MergePolicy::SetIfAbsent),
        ItunesTag::Author => Some(MergePolicy::Append),
        ItunesTag::Summary => Some(MergePolicy::Overwrite),
        _ => None,
    }
}

/// Merges `value` into the singular `field` under `policy`.
pub fn merge_single<T>(policy: Option<MergePolicy>, field: &mut Option<T>, value: Option<T>)
    requires
        policy matches Some(p) && p != MergePolicy::Append,
    ensures
        *final(field) == single_after(policy->0, *old(field), value),
{
    match policy {
        Some(MergePolicy::Overwrite) => {
            *field = value;
        },
        _ => {
            if field.is_none() {
                *field = value;
            }
        },
    }
}

/// Merges `value` into the repeatable `field`: appended when there is one.
pub fn merge_repeated<T>(policy: Option<MergePolicy>, field: &mut Vec<T>, value: Option<T>)
    requires
        policy == Some(MergePolicy::Append),
    ensures
        final(field)@ == repeated_after(old(field)@, value),
{
    match value {
        Some(v) => {
            field.push(v);
        },
        None => {},
    }
}

/// Processes a channel-level `itunes:` element into `feed`: `image` sets the
/// logo and `explicit` the rating, each only where still unset; `category`
/// appends; any other element is skipped.
pub fn handle_itunes_channel_element(element: Element, feed: &mut Feed) -> (r: Result<
    (),
    ReadError,
>)
    ensures
        r is Ok,
        final(feed)@ == channel_after(old(feed)@, element),
{
    let ghost e = element;
    match itunes_tag(&element) {
        Some(ItunesTag::Image) => {
            let logo = match handle_image(element) {
                Some(thumbnail) => Some(thumbnail.image),
                None => None,
            };
            merge_single(channel_policy(ItunesTag::Image), &mut feed.logo, logo);
        },
        Some(ItunesTag::Category) => {
            let category = handle_category(element);
            merge_repeated(channel_policy(ItunesTag::Category), &mut feed.categories, category);
            assert(feed@.categories =~= repeated_after(old(feed)@.categories, category_of(e)));
        },
        Some(ItunesTag::Explicit) => {
            let rating = handle_explicit(element);
            merge_single(channel_policy(ItunesTag::Explicit), &mut feed.rating, rating);
        },
        _ => {},
    }
    assert(feed@ == channel_after(old(feed)@, e));
    Ok(())
}

/// Processes an item-level `itunes:` element into `media_obj`: `title` and
/// `summary` overwrite, `image` and `author` append, `duration` sets only
/// where still unset; any other element is skipped. A read error met on
/// text content is returned with `media_obj` left as it was.
pub fn handle_itunes_item_element(element: Element, media_obj: &mut MediaObject) -> (r: Result<
    (),
    ReadError,
>)
    ensures
        r == item_outcome(element),
        final(media_obj)@ == item_after(old(media_obj)@, element),
{
    let ghost e = element;
    match itunes_tag(&element) {
        Some(ItunesTag::Title) => {
            match element.content {
                Ok(text) => {
                    merge_single(item_policy(ItunesTag::Title), &mut media_obj.title, text);
                },
                Err(err) => {
                    return Err(err);
                },
            }
        },
        Some(ItunesTag::Image) => {
            let thumbnail = handle_image(element);
            merge_repeated(item_policy(ItunesTag::Image), &mut media_obj.thumbnails, thumbnail);
            assert(media_obj@.thumbnails =~= repeated_after(old(media_obj)@.thumbnails, image_of(e)));
        },
        Some(ItunesTag::Duration) => {
            let duration = handle_duration(element);
            merge_single(item_policy(ItunesTag::Duration), &mut media_obj.duration, duration);
        },
        Some(ItunesTag::Author) => {
            let credit = handle_author(element);
            merge_repeated(item_policy(ItunesTag::Author), &mut media_obj.credits, credit);
            assert(media_obj@.credits =~= repeated_after(old(media_obj)@.credits, credit_of(e)));
        },
        Some(ItunesTag::Summary) => {
            match element.content {
                Ok(text) => {
                    merge_single(item_policy(ItunesTag::Summary), &mut media_obj.description, text);
                },
                Err(err) => {
                    return Err(err);
                },
            }
        },
        _ => {},
    }
    assert(media_obj@ == item_after(old(media_obj)@, e));
    Ok(())
}

/// An `image` element at channel level leaves a logo that is already set as
/// it is, and otherwise sets the logo to the extracted image; categories and
/// rating are untouched either way.
pub proof fn lemma_logo_precedence(f: FeedView, e: Element)
    requires
        tag_of(e) == Some(ItunesTag::Image),
    ensures
        channel_after(f, e).logo == if f.logo is Some {
            f.logo
        } else {
            image_of(e)
        },
        channel_after(f, e).categories == f.categories,
        channel_after(f, e).rating == f.rating,
{
}

/// Three `author` elements with names append those names to the credits,
/// in document order.
pub proof fn lemma_credits_accumulate(m: MediaObjectView, a: Element, b: Element, c: Element)
    requires
        tag_of(a) == Some(ItunesTag::Author),
        tag_of(b) == Some(ItunesTag::Author),
        tag_of(c) == Some(ItunesTag::Author),
        credit_of(a) is Some,
        credit_of(b) is Some,
        credit_of(c) is Some,
    ensures
        item_after(item_after(item_after(m, a), b), c).credits == m.credits + seq![
            credit_of(a)->0,
            credit_of(b)->0,
            credit_of(c)->0,
        ],
        item_after(item_after(item_after(m, a), b), c).credits.len() == m.credits.len() + 3,
{
    assert(item_after(item_after(item_after(m, a), b), c).credits =~= m.credits + seq![
        credit_of(a)->0,
        credit_of(b)->0,
        credit_of(c)->0,
    ]);
}

/// Of two `duration` elements with valid tokens, processed on an item with
/// no duration yet, the first one sets the duration and the second is
/// ignored.
pub proof fn lemma_duration_first_wins(m: MediaObjectView, a: Element, b: Element)
    requires
        m.duration is None,
        tag_of(a) == Some(ItunesTag::Duration),
        tag_of(b) == Some(ItunesTag::Duration),
        duration_of(a) is Some,
        duration_of(b) is Some,
    ensures
        item_after(item_after(m, a), b).duration == duration_of(a),
{
}

/// An element that a merger does not recognise leaves its model unchanged,
/// and the item-level merger reports no error for it.
pub proof fn lemma_unknown_element(f: FeedView, m: MediaObjectView, e: Element)
    ensures
        !(tag_of(e) matches Some(
            ItunesTag::Image | ItunesTag::Category | ItunesTag::Explicit,
        )) ==> channel_after(f, e) == f,
        !(tag_of(e) matches Some(
            ItunesTag::Title | ItunesTag::Image | ItunesTag::Duration | ItunesTag::Author
            | ItunesTag::Summary,
        )) ==> item_after(m, e) == m && item_outcome(e) is Ok,
{
}

} // verus!
