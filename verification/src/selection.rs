use vstd::prelude::*;

use crate::media::{
    backdrop_reference, is_episode, ImageKind, primary_reference, spec_backdrop_reference, spec_kind_name,
    spec_primary_reference, ImageRef, ImageReference, MediaItem,
};
use crate::poster_config::Style;
use crate::text::{joined, text_is};

verus! {

/// The key under which an item's content counts as seen: all episodes of a
/// series share the series' key.
pub open spec fn content_key(item: MediaItem) -> Seq<char> {
    if is_episode(item) && item.series_id is Some {
        "series:"@ + item.series_id->Some_0@
    } else {
        "item:"@ + item.id@
    }
}

/// The key under which an image counts as seen: item, kind and tag.
pub open spec fn image_key(r: ImageRef) -> Seq<char> {
    r.item_id + ":"@ + spec_kind_name(r.kind) + ":"@ + match r.tag {
        Some(t) => t,
        None => Seq::empty(),
    }
}

/// The image an item contributes to a poster of the given style: collages
/// prefer posters, the other styles prefer backdrops.
pub open spec fn preferred_reference(item: MediaItem, style: Style) -> Option<ImageRef> {
    if style == Style::Collage {
        match spec_primary_reference(item) {
            Some(r) => Some(r),
            None => spec_backdrop_reference(item),
        }
    } else {
        match spec_backdrop_reference(item) {
            Some(r) => Some(r),
            None => spec_primary_reference(item),
        }
    }
}

/// The selection after the items seen so far: the chosen images, the content
/// keys and the image keys taken.
pub struct SelectionState {
    pub refs: Seq<ImageRef>,
    pub contents: Set<Seq<char>>,
    pub images: Set<Seq<char>>,
}

/// One item's effect on the selection: it is skipped when its content was
/// already taken, when it has no image, or when its image was already taken.
pub open spec fn selection_step(s: SelectionState, item: MediaItem, style: Style) -> SelectionState {
    let ck = content_key(item);
    if s.contents.contains(ck) {
        s
    } else {
        match preferred_reference(item, style) {
            None => s,
            Some(r) => if s.images.contains(image_key(r)) {
                s
            } else {
                SelectionState {
                    refs: s.refs.push(r),
                    contents: s.contents.insert(ck),
                    images: s.images.insert(image_key(r)),
                }
            },
        }
    }
}

/// The selection made from a list of items, in order.
pub open spec fn selection_of(items: Seq<MediaItem>, style: Style) -> SelectionState
    decreases items.len(),
{
    if items.len() == 0 {
        SelectionState { refs: Seq::empty(), contents: Set::empty(), images: Set::empty() }
    } else {
        selection_step(selection_of(items.drop_last(), style), items.last(), style)
    }
}

/// The images chosen from a list of items for a poster style.
pub open spec fn spec_select(items: Seq<MediaItem>, style: Style) -> Seq<ImageRef> {
    selection_of(items, style).refs
}

fn content_key_of(item: &MediaItem) -> (res: String)
    ensures
        res@ == content_key(*item),
{
    proof {
        reveal_strlit("Episode");
    }
    if text_is(&item.item_type, "Episode") {
        match &item.series_id {
            Some(id) => {
                return joined("series:", id.as_str());
            },
            None => {},
        }
    }
    joined("item:", item.id.as_str())
}

fn image_key_of(r: &ImageReference) -> (res: String)
    ensures
        res@ == image_key(r@),
{
    let mut key = String::from_str(r.item_id.as_str());
    key.append(":");
    key.append(r.kind.name());
    key.append(":");
    match &r.tag {
        Some(t) => key.append(t.as_str()),
        None => {},
    }
    proof {
        if r.tag is None {
            assert(key@ =~= image_key(r@));
        }
    }
    key
}

fn contains_text(seen: &Vec<String>, key: &String) -> (res: bool)
    ensures
        res == exists|i: int| 0 <= i < seen@.len() && seen@[i]@ == key@,
{
    let mut i: usize = 0;
    while i < seen.len()
        invariant
            i <= seen.len(),
            forall|j: int| 0 <= j < i ==> seen@[j]@ != key@,
        decreases seen.len() - i,
    {
        if seen[i] == *key {
            return true;
        }
        i = i + 1;
    }
    false
}

/// The set of the views of a list of texts.
pub open spec fn text_set(v: Seq<String>) -> Set<Seq<char>> {
    Set::new(|k: Seq<char>| exists|i: int| 0 <= i < v.len() && v[i]@ == k)
}

/// Chooses the images for a poster of the given style, one per content: all
/// episodes of a series count as one content, and an image that was chosen
/// already is not chosen twice.
pub fn select_image_references(items: &Vec<MediaItem>, style: Style) -> (res: Vec<ImageReference>)
    ensures
        res@.map_values(|r: ImageReference| r@) == spec_select(items@, style),
{
    let mut references: Vec<ImageReference> = Vec::new();
    let mut seen_content: Vec<String> = Vec::new();
    let mut seen_images: Vec<String> = Vec::new();
    let mut i: usize = 0;
    while i < items.len()
        invariant
            i <= items.len(),
            references@.map_values(|r: ImageReference| r@) == selection_of(
                items@.take(i as int),
                style,
            ).refs,
            text_set(seen_content@) == selection_of(items@.take(i as int), style).contents,
            text_set(seen_images@) == selection_of(items@.take(i as int), style).images,
        decreases items.len() - i,
    {
        let ghost before = selection_of(items@.take(i as int), style);
        proof {
            assert(items@.take(i + 1).drop_last() =~= items@.take(i as int));
            assert(items@.take(i + 1).last() == items@[i as int]);
        }
        let item = &items[i];
        let content = content_key_of(item);
        if contains_text(&seen_content, &content) {
            assert(before.contents.contains(content@));
        } else {
            assert(!before.contents.contains(content@));
            let reference = if style == Style::Collage {
                match primary_reference(item) {
                    Some(r) => Some(r),
                    None => backdrop_reference(item),
                }
            } else {
                match backdrop_reference(item) {
                    Some(r) => Some(r),
                    None => primary_reference(item),
                }
            };
            match reference {
                None => {},
                Some(reference) => {
                    let key = image_key_of(&reference);
                    if contains_text(&seen_images, &key) {
                        assert(before.images.contains(key@));
                    } else {
                        assert(!before.images.contains(key@));
                        let ghost old_content = seen_content@;
                        let ghost old_images = seen_images@;
                        let ghost old_refs = references@;
                        seen_content.push(content);
                        seen_images.push(key);
                        references.push(reference);
                        proof {
                            assert(text_set(seen_content@) =~= text_set(old_content).insert(
                                content_key(*item),
                            )) by {
                                assert forall|k: Seq<char>|
                                    text_set(seen_content@).contains(k) implies text_set(
                                    old_content,
                                ).insert(content_key(*item)).contains(k) by {
                                    let j = choose|j: int|
                                        0 <= j < seen_content@.len() && seen_content@[j]@ == k;
                                    if j < old_content.len() {
                                        assert(old_content[j] == seen_content@[j]);
                                    }
                                }
                                assert forall|k: Seq<char>|
                                    text_set(old_content).insert(
                                        content_key(*item),
                                    ).contains(k) implies text_set(seen_content@).contains(k) by {
                                    if k == content_key(*item) {
                                        assert(seen_content@[old_content.len() as int]@ == k);
                                    } else {
                                        let j = choose|j: int|
                                            0 <= j < old_content.len() && old_content[j]@ == k;
                                        assert(seen_content@[j] == old_content[j]);
                                    }
                                }
                            }
                            let r = references@[references@.len() - 1];
                            assert(text_set(seen_images@) =~= text_set(old_images).insert(
                                image_key(r@),
                            )) by {
                                assert forall|k: Seq<char>|
                                    text_set(seen_images@).contains(k) implies text_set(
                                    old_images,
                                ).insert(image_key(r@)).contains(k) by {
                                    let j = choose|j: int|
                                        0 <= j < seen_images@.len() && seen_images@[j]@ == k;
                                    if j < old_images.len() {
                                        assert(old_images[j] == seen_images@[j]);
                                    }
                                }
                                assert forall|k: Seq<char>|
                                    text_set(old_images).insert(image_key(r@)).contains(
                                        k,
                                    ) implies text_set(seen_images@).contains(k) by {
                                    if k == image_key(r@) {
                                        assert(seen_images@[old_images.len() as int]@ == k);
                                    } else {
                                        let j = choose|j: int|
                                            0 <= j < old_images.len() && old_images[j]@ == k;
                                        assert(seen_images@[j] == old_images[j]);
                                    }
                                }
                            }
                            assert(references@.map_values(|r: ImageReference| r@) =~= old_refs.map_values(
                                |r: ImageReference| r@,
                            ).push(r@));
                        }
                    }
                },
            }
        }
        i = i + 1;
    }
    proof {
        assert(items@.take(items.len() as int) =~= items@);
    }
    references
}

/// A selection never chooses the same image twice, and every image it
/// chooses takes a content of its own: the image keys of the chosen images are
/// distinct, and there are as many contents taken as images chosen.
pub proof fn lemma_selection_distinct(items: Seq<MediaItem>, style: Style)
    ensures
        ({
            let s = selection_of(items, style);
            &&& forall|i: int, j: int|
                0 <= i < j < s.refs.len() ==> image_key(s.refs[i]) != image_key(s.refs[j])
            &&& s.contents.finite()
            &&& s.contents.len() == s.refs.len()
            &&& forall|k: Seq<char>|
                s.images.contains(k) <==> exists|i: int| 0 <= i < s.refs.len() && image_key(s.refs[i]) == k
        }),
    decreases items.len(),
{
    if items.len() > 0 {
        lemma_selection_distinct(items.drop_last(), style);
        let before = selection_of(items.drop_last(), style);
        let after = selection_of(items, style);
        if after.refs.len() != before.refs.len() {
            let r = after.refs.last();
            assert(after.refs == before.refs.push(r));
            assert(!before.images.contains(image_key(r)));
            assert forall|k: Seq<char>|
                after.images.contains(k) <==> exists|i: int|
                    0 <= i < after.refs.len() && image_key(after.refs[i]) == k by {
                if after.images.contains(k) && k != image_key(r) {
                    let i = choose|i: int| 0 <= i < before.refs.len() && image_key(before.refs[i]) == k;
                    assert(after.refs[i] == before.refs[i]);
                }
                if exists|i: int| 0 <= i < after.refs.len() && image_key(after.refs[i]) == k {
                    let i = choose|i: int| 0 <= i < after.refs.len() && image_key(after.refs[i]) == k;
                    if i < before.refs.len() {
                        assert(after.refs[i] == before.refs[i]);
                    }
                }
            }
            assert forall|i: int, j: int|
                0 <= i < j < after.refs.len() implies image_key(after.refs[i]) != image_key(
                    after.refs[j],
                ) by {
                assert(after.refs[i] == before.refs[i]);
                if j < before.refs.len() {
                    assert(after.refs[j] == before.refs[j]);
                } else {
                    assert(before.images.contains(image_key(before.refs[i])));
                }
            }
        }
    }
}

/// Every chosen image is the image its item offers for the style: a
/// collage takes an item's poster, or its backdrop where it has no poster;
/// every other style takes an item's backdrop, or its poster where it has no
/// backdrop.
pub proof fn lemma_selection_follows_style(items: Seq<MediaItem>, style: Style)
    ensures
        forall|k: int|
            #![trigger spec_select(items, style)[k]]
            0 <= k < spec_select(items, style).len() ==> exists|j: int|
                0 <= j < items.len() && if style == Style::Collage {
                    ||| spec_primary_reference(#[trigger] items[j]) == Some(spec_select(items, style)[k])
                    ||| spec_primary_reference(items[j]) is None && spec_backdrop_reference(items[j])
                        == Some(spec_select(items, style)[k])
                } else {
                    ||| spec_backdrop_reference(#[trigger] items[j]) == Some(spec_select(items, style)[k])
                    ||| spec_backdrop_reference(items[j]) is None && spec_primary_reference(items[j])
                        == Some(spec_select(items, style)[k])
                },
    decreases items.len(),
{
    if items.len() > 0 {
        let rest = items.drop_last();
        lemma_selection_follows_style(rest, style);
        let before = selection_of(rest, style);
        let after = selection_of(items, style);
        assert forall|k: int| #![trigger after.refs[k]] 0 <= k < after.refs.len() implies exists|j: int|
            0 <= j < items.len() && if style == Style::Collage {
                ||| spec_primary_reference(#[trigger] items[j]) == Some(after.refs[k])
                ||| spec_primary_reference(items[j]) is None && spec_backdrop_reference(items[j])
                    == Some(after.refs[k])
            } else {
                ||| spec_backdrop_reference(#[trigger] items[j]) == Some(after.refs[k])
                ||| spec_backdrop_reference(items[j]) is None && spec_primary_reference(items[j])
                    == Some(after.refs[k])
            } by {
            let last = items.last();
            assert(after == selection_step(before, last, style));
            if after.refs.len() > before.refs.len() {
                assert(after.refs == before.refs.push(preferred_reference(last, style)->Some_0));
            } else {
                assert(after.refs == before.refs);
            }
            if k < before.refs.len() {
                assert(after.refs[k] == before.refs[k]);
                assert(spec_select(rest, style)[k] == before.refs[k]);
                let j = choose|j: int|
                    0 <= j < rest.len() && if style == Style::Collage {
                        ||| spec_primary_reference(#[trigger] rest[j]) == Some(before.refs[k])
                        ||| spec_primary_reference(rest[j]) is None && spec_backdrop_reference(rest[j])
                            == Some(before.refs[k])
                    } else {
                        ||| spec_backdrop_reference(#[trigger] rest[j]) == Some(before.refs[k])
                        ||| spec_backdrop_reference(rest[j]) is None && spec_primary_reference(rest[j])
                            == Some(before.refs[k])
                    };
                assert(rest[j] == items[j]);
            } else {
                let j = items.len() - 1;
                assert(items[j] == items.last());
                assert(Some(after.refs[k]) == preferred_reference(items.last(), style));
            }
        }
    }
}

/// A backdrop has the backdrop kind and a poster the primary kind.
proof fn lemma_reference_kinds(item: MediaItem)
    ensures
        spec_backdrop_reference(item) matches Some(r) ==> r.kind == ImageKind::Backdrop,
        spec_primary_reference(item) matches Some(r) ==> r.kind == ImageKind::Primary,
{
}

/// Where every item has a backdrop, every style but collage is made only of
/// backdrops; where every item has a poster, a collage is made only of
/// posters.
pub proof fn lemma_selection_kind_by_style(items: Seq<MediaItem>, style: Style)
    ensures
        style != Style::Collage && (forall|j: int|
            0 <= j < items.len() ==> spec_backdrop_reference(#[trigger] items[j]) is Some) ==> forall|k: int|
            0 <= k < spec_select(items, style).len() ==> (#[trigger] spec_select(items, style)[k]).kind
                == ImageKind::Backdrop,
        style == Style::Collage && (forall|j: int|
            0 <= j < items.len() ==> spec_primary_reference(#[trigger] items[j]) is Some) ==> forall|k: int|
            0 <= k < spec_select(items, style).len() ==> (#[trigger] spec_select(items, style)[k]).kind
                == ImageKind::Primary,
{
    lemma_selection_follows_style(items, style);
    assert forall|j: int| 0 <= j < items.len() implies {
        &&& spec_backdrop_reference(#[trigger] items[j]) matches Some(r) ==> r.kind == ImageKind::Backdrop
        &&& spec_primary_reference(items[j]) matches Some(r) ==> r.kind == ImageKind::Primary
    } by {
        lemma_reference_kinds(items[j]);
    }
}

/// A single item with an image contributes exactly one image: its backdrop
/// for every style but collage where it has one, its poster for a collage
/// where it has one.
pub proof fn lemma_single_item_contributes(item: MediaItem, style: Style)
    ensures
        style != Style::Collage && spec_backdrop_reference(item) is Some ==> spec_select(seq![item], style)
            == seq![spec_backdrop_reference(item)->Some_0],
        style == Style::Collage && spec_primary_reference(item) is Some ==> spec_select(seq![item], style)
            == seq![spec_primary_reference(item)->Some_0],
{
    let items = seq![item];
    assert(items.drop_last() =~= Seq::<MediaItem>::empty());
    assert(items.last() == item);
    let empty = selection_of(items.drop_last(), style);
    assert(!empty.contents.contains(content_key(item)));
    assert(!empty.images.contains(image_key(preferred_reference(item, style)->Some_0)));
}

} // verus!
