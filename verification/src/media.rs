use vstd::prelude::*;

use crate::text::{opt_view, text_is};

verus! {

/// A user account of the media server.
#[derive(Debug, Clone)]
pub struct User {
    pub id: String,
}

/// A media library (top-level folder) of the media server.
#[derive(Debug, Clone)]
pub struct Library {
    pub id: String,
    pub name: String,
    pub collection_type: Option<String>,
}

/// A media item with the image metadata that poster selection reads.
///
/// `image_tags` holds the image tags by image type, as the server's
/// `ImageTags` object does; a lookup takes the last entry with the key, as a
/// map filled in order would hold it.
#[derive(Debug, Clone)]
pub struct MediaItem {
    pub id: String,
    pub item_type: String,
    pub series_id: Option<String>,
    pub series_primary_image_tag: Option<String>,
    pub parent_backdrop_item_id: Option<String>,
    pub parent_backdrop_image_tags: Vec<String>,
    pub backdrop_image_tags: Vec<String>,
    pub image_tags: Vec<(String, String)>,
}

/// The two kinds of image that posters are made from.
#[derive(Debug, Clone, Copy, PartialEq, Eq, Structural)]
pub enum ImageKind {
    Primary,
    Backdrop,
}

/// The URL path segment of an image kind.
pub open spec fn spec_kind_path(kind: ImageKind) -> Seq<char> {
    match kind {
        ImageKind::Primary => "Primary"@,
        ImageKind::Backdrop => "Backdrop/0"@,
    }
}

/// The name of an image kind, as its `Debug` form writes it.
pub open spec fn spec_kind_name(kind: ImageKind) -> Seq<char> {
    match kind {
        ImageKind::Primary => "Primary"@,
        ImageKind::Backdrop => "Backdrop"@,
    }
}

impl ImageKind {
    /// The path segment under `Items/{id}/Images/` for this kind.
    pub fn path(self) -> (res: &'static str)
        ensures
            res@ == spec_kind_path(self),
    {
        match self {
            ImageKind::Primary => "Primary",
            ImageKind::Backdrop => "Backdrop/0",
        }
    }

    /// The name of this kind.
    pub fn name(self) -> (res: &'static str)
        ensures
            res@ == spec_kind_name(self),
    {
        match self {
            ImageKind::Primary => "Primary",
            ImageKind::Backdrop => "Backdrop",
        }
    }
}

/// One image to download: the item that owns it, its kind and its tag.
#[derive(Debug, Clone)]
pub struct ImageReference {
    pub item_id: String,
    pub kind: ImageKind,
    pub tag: Option<String>,
}

/// The mathematical value of an image reference.
pub struct ImageRef {
    pub item_id: Seq<char>,
    pub kind: ImageKind,
    pub tag: Option<Seq<char>>,
}

impl View for ImageReference {
    type V = ImageRef;

    open spec fn view(&self) -> ImageRef {
        ImageRef { item_id: self.item_id@, kind: self.kind, tag: opt_view(self.tag) }
    }
}

/// The value of the last entry of `tags` whose key is `key`: what a map
/// filled with the entries in order holds under the key.
pub open spec fn tag_lookup(tags: Seq<(String, String)>, key: Seq<char>) -> Option<Seq<char>>
    decreases tags.len(),
{
    if tags.len() == 0 {
        None
    } else if tags.last().0@ == key {
        Some(tags.last().1@)
    } else {
        tag_lookup(tags.drop_last(), key)
    }
}

/// Whether an item is an episode of a series.
pub open spec fn is_episode(item: MediaItem) -> bool {
    item.item_type@ == "Episode"@
}

/// The primary (poster) image of an item: the series poster for an episode
/// whose series has one, otherwise the item's own `Primary` image.
pub open spec fn spec_primary_reference(item: MediaItem) -> Option<ImageRef> {
    if is_episode(item) && item.series_id is Some && item.series_primary_image_tag is Some {
        Some(
            ImageRef {
                item_id: item.series_id->Some_0@,
                kind: ImageKind::Primary,
                tag: Some(item.series_primary_image_tag->Some_0@),
            },
        )
    } else {
        match tag_lookup(item.image_tags@, "Primary"@) {
            Some(tag) => Some(ImageRef { item_id: item.id@, kind: ImageKind::Primary, tag: Some(tag) }),
            None => None,
        }
    }
}

/// The backdrop image of an item: the first backdrop of its parent where
/// there is one, otherwise the item's own first backdrop.
pub open spec fn spec_backdrop_reference(item: MediaItem) -> Option<ImageRef> {
    if item.parent_backdrop_item_id is Some && item.parent_backdrop_image_tags.len() > 0 {
        Some(
            ImageRef {
                item_id: item.parent_backdrop_item_id->Some_0@,
                kind: ImageKind::Backdrop,
                tag: Some(item.parent_backdrop_image_tags@[0]@),
            },
        )
    } else if item.backdrop_image_tags.len() > 0 {
        Some(
            ImageRef {
                item_id: item.id@,
                kind: ImageKind::Backdrop,
                tag: Some(item.backdrop_image_tags@[0]@),
            },
        )
    } else {
        None
    }
}

/// The view of an optional image reference.
pub open spec fn opt_ref_view(o: Option<ImageReference>) -> Option<ImageRef> {
    match o {
        Some(r) => Some(r@),
        None => None,
    }
}

fn lookup_tag(tags: &Vec<(String, String)>, key: &str) -> (res: Option<String>)
    ensures
        opt_view(res) == tag_lookup(tags@, key@),
{
    let mut i: usize = tags.len();
    assert(tags@.take(i as int) =~= tags@);
    while i > 0
        invariant
            i <= tags.len(),
            tag_lookup(tags@, key@) == tag_lookup(tags@.take(i as int), key@),
        decreases i,
    {
        assert(tags@.take(i as int).drop_last() =~= tags@.take(i - 1));
        if text_is(&tags[i - 1].0, key) {
            return Some(tags[i - 1].1.clone());
        }
        i = i - 1;
    }
    None
}

/// The primary (poster) image of a media item, if it has one.
pub fn primary_reference(item: &MediaItem) -> (res: Option<ImageReference>)
    ensures
        opt_ref_view(res) == spec_primary_reference(*item),
{
    proof {
        reveal_strlit("Episode");
        reveal_strlit("Primary");
    }
    if text_is(&item.item_type, "Episode") {
        match (&item.series_id, &item.series_primary_image_tag) {
            (Some(series_id), Some(tag)) => {
                return Some(
                    ImageReference {
                        item_id: series_id.clone(),
                        kind: ImageKind::Primary,
                        tag: Some(tag.clone()),
                    },
                );
            },
            _ => {},
        }
    }
    match lookup_tag(&item.image_tags, "Primary") {
        Some(tag) => Some(
            ImageReference { item_id: item.id.clone(), kind: ImageKind::Primary, tag: Some(tag) },
        ),
        None => None,
    }
}

/// The backdrop image of a media item, if it has one.
pub fn backdrop_reference(item: &MediaItem) -> (res: Option<ImageReference>)
    ensures
        opt_ref_view(res) == spec_backdrop_reference(*item),
{
    match &item.parent_backdrop_item_id {
        Some(parent_id) => {
            if item.parent_backdrop_image_tags.len() > 0 {
                return Some(
                    ImageReference {
                        item_id: parent_id.clone(),
                        kind: ImageKind::Backdrop,
                        tag: Some(item.parent_backdrop_image_tags[0].clone()),
                    },
                );
            }
        },
        None => {},
    }
    if item.backdrop_image_tags.len() > 0 {
        Some(
            ImageReference {
                item_id: item.id.clone(),
                kind: ImageKind::Backdrop,
                tag: Some(item.backdrop_image_tags[0].clone()),
            },
        )
    } else {
        None
    }
}

/// A tag lookup finds the last entry with the key, as a map filled with the
/// entries in order holds it, and finds nothing only where no entry has the
/// key.
pub proof fn lemma_tag_lookup_last(tags: Seq<(String, String)>, key: Seq<char>)
    ensures
        tag_lookup(tags, key) matches Some(v) ==> exists|i: int|
            0 <= i < tags.len() && (#[trigger] tags[i]).0@ == key && tags[i].1@ == v && forall|j: int|
                i < j < tags.len() ==> (#[trigger] tags[j]).0@ != key,
        tag_lookup(tags, key) is None <==> forall|i: int| 0 <= i < tags.len() ==> (#[trigger] tags[i]).0@ != key,
    decreases tags.len(),
{
    if tags.len() > 0 {
        let rest = tags.drop_last();
        lemma_tag_lookup_last(rest, key);
        if tags.last().0@ != key {
            assert forall|i: int| 0 <= i < rest.len() implies rest[i] == tags[i] by {}
            if tag_lookup(rest, key) is Some {
                let i = choose|i: int|
                    0 <= i < rest.len() && (#[trigger] rest[i]).0@ == key && rest[i].1@ == tag_lookup(
                        rest,
                        key,
                    )->Some_0 && forall|j: int| i < j < rest.len() ==> (#[trigger] rest[j]).0@ != key;
                assert(tags[i] == rest[i]);
                assert forall|j: int| i < j < tags.len() implies (#[trigger] tags[j]).0@ != key by {
                    if j < rest.len() {
                        assert(tags[j] == rest[j]);
                    }
                }
            } else {
                assert forall|i: int| 0 <= i < tags.len() implies (#[trigger] tags[i]).0@ != key by {
                    if i < rest.len() {
                        assert(tags[i] == rest[i]);
                    }
                }
            }
        } else {
            assert(tags[tags.len() - 1].0@ == key);
        }
    }
}

/// The images an item offers: its poster is the series poster for an episode
/// whose series has one, and otherwise the item's own `Primary` image, which
/// it lacks only where it has no `Primary` tag; its backdrop is its parent's
/// first backdrop where there is one, then its own first backdrop, and none
/// where it has neither.
pub proof fn lemma_item_images(item: MediaItem)
    ensures
        spec_primary_reference(item) matches Some(r) ==> r.kind == ImageKind::Primary && r.tag is Some,
        spec_backdrop_reference(item) matches Some(r) ==> r.kind == ImageKind::Backdrop && r.tag is Some,
        item.item_type@ == "Episode"@ && item.series_id is Some && item.series_primary_image_tag is Some
            ==> spec_primary_reference(item) == Some(
            ImageRef {
                item_id: item.series_id->Some_0@,
                kind: ImageKind::Primary,
                tag: Some(item.series_primary_image_tag->Some_0@),
            },
        ),
        !(item.item_type@ == "Episode"@ && item.series_id is Some && item.series_primary_image_tag is Some)
            ==> {
            &&& spec_primary_reference(item) is Some <==> exists|i: int|
                0 <= i < item.image_tags@.len() && (#[trigger] item.image_tags@[i]).0@ == "Primary"@
            &&& spec_primary_reference(item) matches Some(r) ==> r.item_id == item.id@
        },
        item.parent_backdrop_item_id is Some && item.parent_backdrop_image_tags.len() > 0
            ==> spec_backdrop_reference(item) == Some(
            ImageRef {
                item_id: item.parent_backdrop_item_id->Some_0@,
                kind: ImageKind::Backdrop,
                tag: Some(item.parent_backdrop_image_tags@[0]@),
            },
        ),
        !(item.parent_backdrop_item_id is Some && item.parent_backdrop_image_tags.len() > 0)
            && item.backdrop_image_tags.len() > 0 ==> spec_backdrop_reference(item) == Some(
            ImageRef {
                item_id: item.id@,
                kind: ImageKind::Backdrop,
                tag: Some(item.backdrop_image_tags@[0]@),
            },
        ),
        !(item.parent_backdrop_item_id is Some && item.parent_backdrop_image_tags.len() > 0)
            && item.backdrop_image_tags.len() == 0 ==> spec_backdrop_reference(item) is None,
{
    lemma_tag_lookup_last(item.image_tags@, "Primary"@);
}

} // verus!
