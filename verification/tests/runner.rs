use std::io::Cursor;

use autofilm::media::{ImageKind, Library, MediaItem};
use autofilm::poster_config::{LibraryConfig, Sort, Style};
use autofilm::raster::PixelBuffer;
use autofilm::resolution::Resolution;
use autofilm::runner::{
    find_library, load_font, poster_title, required_images, sort_name, LibraryJob, LibraryResult,
    PosterError, RenderError, RunStep, Step, Summary, TaskRun, TaskSettings,
};

fn settings(style: Style, upload: bool, output_dir: Option<&str>) -> TaskSettings {
    TaskSettings {
        id: "任务/一".to_string(),
        upload,
        output_dir: output_dir.map(str::to_string),
        style,
        resolution: Resolution::Custom {
            width: 32,
            height: 18,
        },
    }
}

fn library(name: &str) -> Library {
    Library {
        id: "library".to_string(),
        name: name.to_string(),
        collection_type: None,
    }
}

fn library_config(title: &str) -> LibraryConfig {
    LibraryConfig {
        name: "电影:精选".to_string(),
        title: title.to_string(),
        subtitle: "MOVIE".to_string(),
        style: None,
        resolution: None,
        sort: Sort::Random,
    }
}

fn movie(id: &str) -> MediaItem {
    MediaItem {
        id: id.to_string(),
        item_type: "Movie".to_string(),
        series_id: None,
        series_primary_image_tag: None,
        parent_backdrop_item_id: None,
        parent_backdrop_image_tags: Vec::new(),
        backdrop_image_tags: vec!["b".to_string()],
        image_tags: vec![("Primary".to_string(), "p".to_string())],
    }
}

fn png_file(width: u32, height: u32) -> Vec<u8> {
    let mut out = Cursor::new(Vec::new());
    image::DynamicImage::ImageRgba8(image::RgbaImage::new(width, height))
        .write_to(&mut out, image::ImageFormat::Png)
        .unwrap();
    out.into_inner()
}

fn poster(width: u32, height: u32) -> PixelBuffer {
    PixelBuffer::from_raw(width, height, vec![128; (4 * width * height) as usize]).unwrap()
}

#[test]
fn encodes_valid_png_and_sanitizes_output_path() {
    let mut job = LibraryJob::new(
        &settings(Style::Blur, false, Some("/tmp/posters")),
        &library("电影:精选"),
        &library_config(""),
    );
    job.start();
    match job.on_items(&vec![movie("m")]) {
        Step::Download(r) => assert_eq!(r.kind, ImageKind::Backdrop),
        other => panic!("unexpected {other:?}"),
    }
    match job.on_download(Some(png_file(4, 4))) {
        Step::Render { width, height } => assert_eq!((width, height), (32, 18)),
        other => panic!("unexpected {other:?}"),
    }
    match job.on_render(&poster(32, 18)) {
        Step::Save { path, png } => {
            let decoded =
                image::load_from_memory_with_format(&png, image::ImageFormat::Png).unwrap();
            assert_eq!(decoded.width(), 32);
            assert_eq!(
                std::path::Path::new(&path),
                std::path::Path::new("/tmp/posters")
                    .join("任务_一")
                    .join("电影_精选.png")
            );
        }
        other => panic!("unexpected {other:?}"),
    }
    match job.on_saved() {
        Step::Done(Ok(result)) => assert_eq!(
            result,
            LibraryResult {
                downloaded_images: 1,
                saved: true,
                uploaded: false
            }
        ),
        other => panic!("unexpected {other:?}"),
    }
}

#[test]
fn collage_downloads_until_nine_images_or_none_left() {
    let mut job = LibraryJob::new(
        &settings(Style::Collage, true, None),
        &library("电影"),
        &library_config("  "),
    );
    assert_eq!(job.title(), "电影");
    let request = job.start();
    assert_eq!(request.sort_by, "Random");
    assert!(request.random_seed.is_some());
    assert_eq!(request.limit, 50);
    let items: Vec<MediaItem> = (0..3).map(|i| movie(&format!("m{i}"))).collect();
    assert!(matches!(job.on_items(&items), Step::Download(_)));
    // A download that failed and one that does not decode are skipped.
    assert!(matches!(job.on_download(None), Step::Download(_)));
    assert!(matches!(job.on_download(Some(vec![1, 2, 3])), Step::Download(_)));
    assert!(matches!(job.on_download(Some(png_file(2, 2))), Step::Render { .. }));
    assert_eq!(job.images().len(), 1);
    match job.on_render(&poster(32, 18)) {
        Step::Upload { body } => assert!(body.starts_with("iVBORw0KGgo")),
        other => panic!("unexpected {other:?}"),
    }
    assert!(matches!(
        job.on_uploaded(),
        Step::Done(Ok(LibraryResult {
            downloaded_images: 1,
            saved: false,
            uploaded: true
        }))
    ));
}

#[test]
fn library_without_images_or_size_fails() {
    let mut job = LibraryJob::new(
        &settings(Style::Card, true, None),
        &library("电影"),
        &library_config("片"),
    );
    job.start();
    assert!(matches!(
        job.on_items(&Vec::new()),
        Step::Done(Err(PosterError::Render(RenderError::MissingImage)))
    ));

    let mut job = LibraryJob::new(
        &settings(Style::Card, true, None),
        &library("电影"),
        &library_config("片"),
    );
    job.start();
    job.on_items(&vec![movie("m")]);
    assert!(matches!(
        job.on_download(None),
        Step::Done(Err(PosterError::Render(RenderError::MissingImage)))
    ));

    let mut bad = settings(Style::Card, true, None);
    bad.resolution = Resolution::Custom { width: 0, height: 5 };
    let mut job = LibraryJob::new(&bad, &library("电影"), &library_config("片"));
    job.start();
    job.on_items(&vec![movie("m")]);
    assert!(matches!(
        job.on_download(Some(png_file(2, 2))),
        Step::Done(Err(PosterError::Render(RenderError::InvalidResolution(_))))
    ));
}

#[test]
fn summary_counts_successes_and_failures() {
    let mut summary = Summary::new("task".to_string(), 3);
    summary.record_failure();
    summary.record_success(LibraryResult {
        downloaded_images: 9,
        saved: true,
        uploaded: false,
    });
    summary.record_success(LibraryResult {
        downloaded_images: 1,
        saved: true,
        uploaded: true,
    });
    assert_eq!(summary.succeeded_count + summary.failed_count, summary.library_count);
    assert_eq!(summary.generated_count, 2);
    assert_eq!(summary.downloaded_image_count, 10);
    assert_eq!(summary.saved_count, 2);
    assert_eq!(summary.uploaded_count, 1);
}

#[test]
fn settings_title_sort_and_lookup() {
    assert!(matches!(
        settings(Style::Card, false, None).check_output(),
        Err(PosterError::MissingOutput)
    ));
    assert!(settings(Style::Card, true, None).check_output().is_ok());
    assert_eq!(poster_title(&"电影".to_string(), &"Movies".to_string()), "电影");
    assert_eq!(sort_name(Sort::DateCreated), "DateCreated");
    assert_eq!(sort_name(Sort::DateLastContentAdded), "DateLastContentAdded");
    assert_eq!(required_images(Style::Collage), 9);
    assert_eq!(required_images(Style::Split), 1);
    let libraries = vec![library("a"), library("b"), library("a")];
    assert_eq!(find_library(&libraries, &"a".to_string()), Some(2));
    assert_eq!(find_library(&libraries, &"c".to_string()), None);
}

#[test]
fn task_run_records_every_configured_library_once() {
    let mut missing = library_config("");
    missing.name = "不存在".to_string();
    let mut present = library_config("");
    present.name = "电影".to_string();
    let mut run = TaskRun::new(
        &settings(Style::Card, true, None),
        vec![library("电影"), library("剧集")],
        vec![present.clone(), missing, present],
    );
    assert!(matches!(run.advance(), RunStep::Process { library: 0, config: 0 }));
    let result = LibraryResult {
        downloaded_images: 1,
        saved: false,
        uploaded: true,
    };
    assert!(run.can_record(&result));
    assert!(!run.can_record(&LibraryResult {
        downloaded_images: 2,
        saved: false,
        uploaded: true,
    }));
    assert!(!run.can_record(&LibraryResult {
        downloaded_images: 1,
        saved: true,
        uploaded: true,
    }));
    run.record(Some(result));
    assert!(matches!(run.advance(), RunStep::Missing { config: 1 }));
    assert!(matches!(run.advance(), RunStep::Process { library: 0, config: 2 }));
    run.record(None);
    assert!(matches!(run.advance(), RunStep::Finished));
    let summary = run.into_summary();
    assert_eq!(summary.library_count, 3);
    assert_eq!(summary.succeeded_count, 1);
    assert_eq!(summary.failed_count, 2);
    assert_eq!(summary.uploaded_count, 1);
    assert_eq!(summary.task_id, "任务/一");
    assert_eq!(summary.downloaded_image_count, 1);
}

#[test]
fn fonts_need_an_output_first() {
    assert!(matches!(
        settings(Style::Card, false, None).check_output(),
        Err(PosterError::MissingOutput)
    ));
    assert!(settings(Style::Card, false, Some("out")).check_output().is_ok());
}

#[test]
fn unreadable_title_font_is_reported_with_its_path() {
    let result = load_font(
        "title.otf",
        Err(std::io::Error::new(std::io::ErrorKind::NotFound, "missing")),
    );
    match result {
        Err(PosterError::ReadFont { path, .. }) => assert_eq!(path, "title.otf"),
        _ => panic!("expected a font read error"),
    }
}

#[test]
fn garbage_font_bytes_are_refused() {
    match load_font("title.otf", Ok(vec![0; 16])) {
        Err(PosterError::InvalidFont(path)) => assert_eq!(path, "title.otf"),
        _ => panic!("expected an invalid font error"),
    }
}
