//! The shared feed and per-item media models that the mergers write into.

use vstd::prelude::*;

use crate::duration::Duration;

verus! {

/// A reference to a visual asset.
#[derive(Clone, Debug, PartialEq, Eq)]
pub struct Image {
    pub uri: String,
}

impl View for Image {
    type V = Seq<char>;

    open spec fn view(&self) -> Seq<char> {
        self.uri@
    }
}

impl Image {
    pub fn new(uri: String) -> (r: Image)
        ensures
            r@ == uri@,
    {
        Image { uri }
    }
}

/// One candidate thumbnail of a media object.
#[derive(Clone, Debug, PartialEq, Eq)]
pub struct MediaThumbnail {
    pub image: Image,
}

impl View for MediaThumbnail {
    type V = Seq<char>;

    open spec fn view(&self) -> Seq<char> {
        self.image@
    }
}

impl MediaThumbnail {
    pub fn new(image: Image) -> (r: MediaThumbnail)
        ensures
            r@ == image@,
    {
        MediaThumbnail { image }
    }
}

/// A human-readable category label.
#[derive(Clone, Debug, PartialEq, Eq)]
pub struct Category {
    pub term: String,
}

impl View for Category {
    type V = Seq<char>;

    open spec fn view(&self) -> Seq<char> {
        self.term@
    }
}

impl Category {
    pub fn new(term: &str) -> (r: Category)
        ensures
            r@ == term@,
    {
        Category { term: term.to_owned() }
    }
}

/// The name of a contributing person or entity.
#[derive(Clone, Debug, PartialEq, Eq)]
pub struct MediaCredit {
    pub entity: String,
}

impl View for MediaCredit {
    type V = Seq<char>;

    open spec fn view(&self) -> Seq<char> {
        self.entity@
    }
}

impl MediaCredit {
    pub fn new(entity: String) -> (r: MediaCredit)
        ensures
            r@ == entity@,
    {
        MediaCredit { entity }
    }
}

/// A rating value with the vocabulary (`urn`) that produced it.
#[derive(Clone, Debug, PartialEq, Eq)]
pub struct MediaRating {
    pub urn: String,
    pub value: String,
}

pub ghost struct RatingView {
    pub urn: Seq<char>,
    pub value: Seq<char>,
}

impl View for MediaRating {
    type V = RatingView;

    open spec fn view(&self) -> RatingView {
        RatingView { urn: self.urn@, value: self.value@ }
    }
}

pub open spec fn opt_view<T: View>(o: Option<T>) -> Option<T::V> {
    match o {
        Some(t) => Some(t@),
        None => None,
    }
}

/// Channel-level data: a logo, categories in document order, a content rating.
#[derive(Clone, Debug, PartialEq, Eq)]
pub struct Feed {
    pub logo: Option<Image>,
    pub categories: Vec<Category>,
    pub rating: Option<MediaRating>,
}

pub ghost struct FeedView {
    pub logo: Option<Seq<char>>,
    pub categories: Seq<Seq<char>>,
    pub rating: Option<RatingView>,
}

impl View for Feed {
    type V = FeedView;

    open spec fn view(&self) -> FeedView {
        FeedView {
            logo: opt_view(self.logo),
            categories: self.categories@.map_values(|c: Category| c@),
            rating: opt_view(self.rating),
        }
    }
}

impl Feed {
    /// A feed with nothing set.
    pub fn new() -> (r: Feed)
        ensures
            r@ == (FeedView { logo: None, categories: Seq::empty(), rating: None }),
    {
        let r = Feed { logo: None, categories: Vec::new(), rating: None };
        assert(r@.categories =~= Seq::<Seq<char>>::empty());
        r
    }
}

/// Item-level media data.
#[derive(Clone, Debug, PartialEq, Eq)]
pub struct MediaObject {
    pub title: Option<String>,
    pub description: Option<String>,
    pub thumbnails: Vec<MediaThumbnail>,
    pub credits: Vec<MediaCredit>,
    pub duration: Option<Duration>,
}

pub ghost struct MediaObjectView {
    pub title: Option<Seq<char>>,
    pub description: Option<Seq<char>>,
    pub thumbnails: Seq<Seq<char>>,
    pub credits: Seq<Seq<char>>,
    pub duration: Option<Duration>,
}

impl View for MediaObject {
    type V = MediaObjectView;

    open spec fn view(&self) -> MediaObjectView {
        MediaObjectView {
            title: opt_view(self.title),
            description: opt_view(self.description),
            thumbnails: self.thumbnails@.map_values(|t: MediaThumbnail| t@),
            credits: self.credits@.map_values(|c: MediaCredit| c@),
            duration: self.duration,
        }
    }
}

impl MediaObject {
    /// A media object with nothing set.
    pub fn new() -> (r: MediaObject)
        ensures
            r@ == (MediaObjectView {
                title: None,
                description: None,
                thumbnails: Seq::empty(),
                credits: Seq::empty(),
                duration: None,
            }),
    {
        let r = MediaObject {
            title: None,
            description: None,
            thumbnails: Vec::new(),
            credits: Vec::new(),
            duration: None,
        };
        assert(r@.thumbnails =~= Seq::<Seq<char>>::empty());
        assert(r@.credits =~= Seq::<Seq<char>>::empty());
        r
    }
}

} // verus!
