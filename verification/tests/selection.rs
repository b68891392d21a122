use autofilm::media::{backdrop_reference, primary_reference, ImageKind, MediaItem};
use autofilm::poster_config::Style;
use autofilm::selection::select_image_references;

fn item(
    id: &str,
    item_type: &str,
    series_id: Option<&str>,
    primary: Option<&str>,
    backdrop: Option<&str>,
) -> MediaItem {
    MediaItem {
        id: id.to_string(),
        item_type: item_type.to_string(),
        series_id: series_id.map(str::to_string),
        series_primary_image_tag: primary.map(str::to_string),
        parent_backdrop_item_id: series_id.map(str::to_string),
        parent_backdrop_image_tags: backdrop.into_iter().map(str::to_string).collect(),
        backdrop_image_tags: backdrop.into_iter().map(str::to_string).collect(),
        image_tags: primary
            .map(|tag| vec![("Primary".to_string(), tag.to_string())])
            .unwrap_or_default(),
    }
}

#[test]
fn selects_images_by_style_and_deduplicates_series() {
    let items = vec![
        item(
            "episode-1",
            "Episode",
            Some("series"),
            Some("primary"),
            Some("backdrop"),
        ),
        item(
            "episode-2",
            "Episode",
            Some("series"),
            Some("primary"),
            Some("backdrop"),
        ),
    ];

    let collage = select_image_references(&items, Style::Collage);
    let card = select_image_references(&items, Style::Card);

    assert_eq!(collage.len(), 1);
    assert_eq!(collage[0].kind, ImageKind::Primary);
    assert_eq!(card.len(), 1);
    assert_eq!(card[0].kind, ImageKind::Backdrop);
}

#[test]
fn episode_uses_series_poster_and_parent_backdrop() {
    let episode = item("episode", "Episode", Some("series"), Some("poster"), Some("wide"));
    let primary = primary_reference(&episode).unwrap();
    assert_eq!(primary.item_id, "series");
    assert_eq!(primary.tag.as_deref(), Some("poster"));
    let backdrop = backdrop_reference(&episode).unwrap();
    assert_eq!(backdrop.item_id, "series");
    assert_eq!(backdrop.kind, ImageKind::Backdrop);
    assert_eq!(backdrop.tag.as_deref(), Some("wide"));
}

#[test]
fn movie_uses_own_images_and_falls_back_between_kinds() {
    let poster_only = item("movie", "Movie", None, Some("p"), None);
    assert!(backdrop_reference(&poster_only).is_none());
    let chosen = select_image_references(&vec![poster_only], Style::Blur);
    assert_eq!(chosen.len(), 1);
    assert_eq!(chosen[0].item_id, "movie");
    assert_eq!(chosen[0].kind, ImageKind::Primary);

    let nothing = item("bare", "Movie", None, None, None);
    assert!(primary_reference(&nothing).is_none());
    assert!(select_image_references(&vec![nothing], Style::Collage).is_empty());
}

#[test]
fn same_image_is_chosen_once_across_contents() {
    let mut first = item("a", "Movie", None, None, None);
    first.parent_backdrop_item_id = Some("shared".to_string());
    first.parent_backdrop_image_tags = vec!["t".to_string()];
    let mut second = item("b", "Movie", None, None, None);
    second.parent_backdrop_item_id = Some("shared".to_string());
    second.parent_backdrop_image_tags = vec!["t".to_string()];
    let third = item("c", "Movie", None, None, Some("own"));
    let chosen = select_image_references(&vec![first, second, third], Style::Split);
    assert_eq!(chosen.len(), 2);
    assert_eq!(chosen[0].item_id, "shared");
    assert_eq!(chosen[1].item_id, "c");
}

#[test]
fn image_kind_paths() {
    assert_eq!(ImageKind::Primary.path(), "Primary");
    assert_eq!(ImageKind::Backdrop.path(), "Backdrop/0");
}
