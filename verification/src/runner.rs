use base64::Engine;
use vstd::prelude::*;

use crate::media::{ImageRef, ImageReference, Library, MediaItem};
use crate::media_server::MediaServerError;
use crate::output::{output_path, spec_output_path};
use crate::poster_config::{LibraryConfig, Sort, Style};
use crate::raster::PixelBuffer;
use crate::resolution::{spec_dimensions, zero_side_message, Resolution};
use crate::selection::{select_image_references, spec_select};
use crate::text::{is_blank, is_whitespace, opt_view, spec_is_whitespace};

verus! {

/// Why a poster could not be rendered.
#[derive(Debug)]
pub enum RenderError {
    MissingImage,
    InvalidResolution(String),
}

/// What can go wrong in a poster task.
#[derive(Debug)]
pub enum PosterError {
    ReadFont { path: String, source: std::io::Error },
    InvalidFont(String),
    MissingOutput,
    MediaServer(MediaServerError),
    Render(RenderError),
    EncodeImage(image::ImageError),
    CreateOutput { path: String, source: std::io::Error },
    WriteOutput { path: String, source: std::io::Error },
}

/// The counts a poster task reports when it has run.
#[derive(Debug)]
pub struct Summary {
    pub task_id: String,
    pub library_count: usize,
    pub succeeded_count: usize,
    pub failed_count: usize,
    pub downloaded_image_count: usize,
    pub generated_count: usize,
    pub saved_count: usize,
    pub uploaded_count: usize,
}

/// What rendering one library's poster achieved.
#[derive(Debug, Clone, Copy, PartialEq, Eq, Structural)]
pub struct LibraryResult {
    pub downloaded_images: usize,
    pub saved: bool,
    pub uploaded: bool,
}

/// The value of a boolean as a count.
pub open spec fn count_of(b: bool) -> int {
    if b {
        1
    } else {
        0
    }
}

impl Summary {
    /// The counts stay consistent: each library recorded either succeeded or
    /// failed, each success generated one poster, and saved and uploaded
    /// posters are among the generated ones.
    pub open spec fn wf(&self) -> bool {
        &&& self.succeeded_count + self.failed_count <= self.library_count
        &&& self.generated_count == self.succeeded_count
        &&& self.saved_count <= self.succeeded_count
        &&& self.uploaded_count <= self.succeeded_count
    }

    /// The number of libraries recorded so far.
    pub open spec fn recorded(&self) -> int {
        self.succeeded_count + self.failed_count
    }

    /// A summary of a task over `library_count` libraries, none recorded yet.
    pub fn new(task_id: String, library_count: usize) -> (res: Summary)
        ensures
            res.wf(),
            res.task_id == task_id,
            res.library_count == library_count,
            res.succeeded_count == 0 && res.failed_count == 0 && res.downloaded_image_count == 0
                && res.generated_count == 0 && res.saved_count == 0 && res.uploaded_count == 0,
    {
        Summary {
            task_id,
            library_count,
            succeeded_count: 0,
            failed_count: 0,
            downloaded_image_count: 0,
            generated_count: 0,
            saved_count: 0,
            uploaded_count: 0,
        }
    }

    /// Records a library whose poster failed, or that the server does not have.
    pub fn record_failure(&mut self)
        requires
            old(self).wf(),
            old(self).recorded() < old(self).library_count,
        ensures
            final(self).wf(),
            final(self).failed_count == old(self).failed_count + 1,
            final(self).task_id == old(self).task_id,
            final(self).library_count == old(self).library_count,
            final(self).succeeded_count == old(self).succeeded_count,
            final(self).downloaded_image_count == old(self).downloaded_image_count,
            final(self).generated_count == old(self).generated_count,
            final(self).saved_count == old(self).saved_count,
            final(self).uploaded_count == old(self).uploaded_count,
    {
        self.failed_count = self.failed_count + 1;
    }

    /// Records a library whose poster was generated.
    pub fn record_success(&mut self, result: LibraryResult)
        requires
            old(self).wf(),
            old(self).recorded() < old(self).library_count,
            old(self).downloaded_image_count + result.downloaded_images <= usize::MAX,
        ensures
            final(self).wf(),
            final(self).succeeded_count == old(self).succeeded_count + 1,
            final(self).generated_count == old(self).generated_count + 1,
            final(self).downloaded_image_count == old(self).downloaded_image_count
                + result.downloaded_images,
            final(self).saved_count == old(self).saved_count + count_of(result.saved),
            final(self).uploaded_count == old(self).uploaded_count + count_of(result.uploaded),
            final(self).task_id == old(self).task_id,
            final(self).library_count == old(self).library_count,
            final(self).failed_count == old(self).failed_count,
    {
        self.succeeded_count = self.succeeded_count + 1;
        self.downloaded_image_count = self.downloaded_image_count + result.downloaded_images;
        self.generated_count = self.generated_count + 1;
        if result.saved {
            self.saved_count = self.saved_count + 1;
        }
        if result.uploaded {
            self.uploaded_count = self.uploaded_count + 1;
        }
    }
}

/// The library a configured name refers to: the last one the server lists
/// under that name, as a map keyed by name keeps it.
pub open spec fn spec_find_library(libraries: Seq<Library>, name: Seq<char>) -> Option<int>
    decreases libraries.len(),
{
    if libraries.len() == 0 {
        None
    } else if libraries.last().name@ == name {
        Some(libraries.len() - 1)
    } else {
        spec_find_library(libraries.drop_last(), name)
    }
}

/// Finds the library the server lists under a name; where several share the
/// name, the last one.
pub fn find_library(libraries: &Vec<Library>, name: &String) -> (res: Option<usize>)
    ensures
        match res {
            Some(i) => spec_find_library(libraries@, name@) == Some(i as int),
            None => spec_find_library(libraries@, name@) is None,
        },
{
    let mut i = libraries.len();
    assert(libraries@.take(i as int) =~= libraries@);
    while i > 0
        invariant
            i <= libraries@.len(),
            spec_find_library(libraries@, name@) == spec_find_library(libraries@.take(i as int), name@),
        decreases i,
    {
        assert(libraries@.take(i as int).drop_last() =~= libraries@.take(i - 1));
        assert(libraries@.take(i as int).last() == libraries@[i - 1]);
        if libraries[i - 1].name == *name {
            return Some(i - 1);
        }
        i = i - 1;
    }
    assert(libraries@.take(0) =~= Seq::<Library>::empty());
    None
}

/// The parts of a poster task's configuration that decide what it does.
#[derive(Debug, Clone)]
pub struct TaskSettings {
    pub id: String,
    pub upload: bool,
    pub output_dir: Option<String>,
    pub style: Style,
    pub resolution: Resolution,
}

impl TaskSettings {
    /// A task must save its posters, upload them, or both.
    pub fn check_output(&self) -> (res: Result<(), PosterError>)
        ensures
            res is Ok <==> (self.upload || self.output_dir is Some),
            res is Err ==> res matches Err(PosterError::MissingOutput),
    {
        if !self.upload && self.output_dir.is_none() {
            Err(PosterError::MissingOutput)
        } else {
            Ok(())
        }
    }
}

/// Whether `ab_glyph::FontArc::try_from_vec` accepts some bytes as a font.
pub uninterp spec fn font_parses(bytes: Seq<u8>) -> bool;

/// Parses a TrueType or OpenType font with `ab_glyph::FontArc::try_from_vec`.
/// Whether it accepts the bytes depends on the bytes alone and is named by
/// `font_parses`.
#[verifier::external_body]
fn parse_font(bytes: Vec<u8>) -> (res: Result<ab_glyph::FontArc, ()>)
    ensures
        res is Ok <==> font_parses(bytes@),
{
    ab_glyph::FontArc::try_from_vec(bytes).map_err(|_| ())
}

/// Loads a font from a file's contents, as they were read: a file that could
/// not be read, or whose contents are not a font, fails with its path.
pub fn load_font(path: &str, read: Result<Vec<u8>, std::io::Error>) -> (res: Result<ab_glyph::FontArc, PosterError>)
    ensures
        match read {
            Err(_) => res matches Err(PosterError::ReadFont { path: p, .. }) && p@ == path@,
            Ok(bytes) => if font_parses(bytes@) {
                res is Ok
            } else {
                res matches Err(PosterError::InvalidFont(p)) && p@ == path@
            },
        },
{
    match read {
        Err(source) => Err(PosterError::ReadFont { path: String::from_str(path), source }),
        Ok(bytes) => match parse_font(bytes) {
            Ok(font) => Ok(font),
            Err(()) => Err(PosterError::InvalidFont(String::from_str(path))),
        },
    }
}

/// The server's name of a sort order.
pub open spec fn spec_sort_name(sort: Sort) -> Seq<char> {
    match sort {
        Sort::Random => "Random"@,
        Sort::DateCreated => "DateCreated"@,
        Sort::DateLastContentAdded => "DateLastContentAdded"@,
    }
}

/// The server's name of a sort order.
pub fn sort_name(sort: Sort) -> (res: &'static str)
    ensures
        res@ == spec_sort_name(sort),
{
    match sort {
        Sort::Random => "Random",
        Sort::DateCreated => "DateCreated",
        Sort::DateLastContentAdded => "DateLastContentAdded",
    }
}

/// How many images a poster of a style needs: nine for a collage, one otherwise.
pub open spec fn spec_required_images(style: Style) -> int {
    if style == Style::Collage {
        9
    } else {
        1
    }
}

/// How many images a poster of a style needs.
pub fn required_images(style: Style) -> (res: usize)
    ensures
        res == spec_required_images(style),
{
    if style == Style::Collage {
        9
    } else {
        1
    }
}

/// The title printed on a library's poster: the configured one, or the
/// library's name where the configured one is blank.
pub open spec fn spec_poster_title(configured: Seq<char>, library_name: Seq<char>) -> Seq<char> {
    if is_blank(configured) {
        library_name
    } else {
        configured
    }
}

/// The title printed on a library's poster.
pub fn poster_title(configured: &String, library_name: &String) -> (res: String)
    ensures
        res@ == spec_poster_title(configured@, library_name@),
{
    let n = configured.unicode_len();
    let mut i: usize = 0;
    while i < n
        invariant
            n == configured@.len(),
            i <= n,
            forall|k: int| 0 <= k < i ==> spec_is_whitespace(#[trigger] configured@[k]),
        decreases n - i,
    {
        if !is_whitespace(configured.as_str().get_char(i)) {
            assert(!spec_is_whitespace(configured@[i as int]));
            return configured.clone();
        }
        i = i + 1;
    }
    library_name.clone()
}

/// A random seed for the server's random sort. Drawn from `rand::random`;
/// nothing is stated of its value.
#[verifier::external_body]
fn random_seed() -> (seed: u64) {
    rand::random::<u64>()
}

/// What the image library's `load_from_memory` decodes from bytes, as RGBA
/// width, height and pixel bytes; nothing where it cannot decode them.
pub uninterp spec fn decoded_image(bytes: Seq<u8>) -> Option<(u32, u32, Seq<u8>)>;

/// Decodes an image file (PNG, JPEG, WebP or GIF) with `image::load_from_memory`
/// and converts it to RGBA with `to_rgba8`, giving its width, height and raw
/// bytes. The outcome depends on the bytes alone and is named by
/// `decoded_image`; the buffer that `to_rgba8` makes holds exactly four bytes
/// per pixel.
#[verifier::external_body]
fn decode_image(bytes: &Vec<u8>) -> (res: Result<(u32, u32, Vec<u8>), image::ImageError>)
    ensures
        match res {
            Ok(image) => {
                &&& decoded_image(bytes@) == Some((image.0, image.1, image.2@))
                &&& image.2@.len() == 4 * ((image.0 as int) * (image.1 as int))
            },
            Err(_) => decoded_image(bytes@) is None,
        },
{
    let rgba = image::load_from_memory(bytes)?.to_rgba8();
    Ok((rgba.width(), rgba.height(), rgba.into_raw()))
}

/// What the image library's PNG encoder makes of an RGBA image: the bytes it
/// writes, or nothing where it refuses the image.
pub uninterp spec fn png_encoded(width: u32, height: u32, data: Seq<u8>) -> Option<Seq<u8>>;

/// Encodes an RGBA image as PNG with `image`'s `DynamicImage::write_to` into
/// memory. Whether it succeeds, and the bytes it writes, depend on the image
/// alone and are named by `png_encoded`.
#[verifier::external_body]
fn encode_png(image: &PixelBuffer) -> (res: Result<Vec<u8>, image::ImageError>)
    requires
        image.wf(),
    ensures
        res is Ok <==> png_encoded(image.width, image.height, image.data@) is Some,
        res matches Ok(png) ==> Some(png@) == png_encoded(image.width, image.height, image.data@),
{
    let buffer = image::RgbaImage::from_raw(image.width, image.height, image.data.clone()).unwrap();
    let mut output = std::io::Cursor::new(Vec::new());
    image::DynamicImage::ImageRgba8(buffer).write_to(&mut output, image::ImageFormat::Png)?;
    Ok(output.into_inner())
}

/// The character of a 6-bit value in the standard Base64 alphabet
/// (`A`-`Z`, `a`-`z`, `0`-`9`, `+`, `/`).
pub open spec fn base64_char(v: int) -> char {
    if v < 26 {
        (65 + v) as char
    } else if v < 52 {
        (97 + (v - 26)) as char
    } else if v < 62 {
        (48 + (v - 52)) as char
    } else if v == 62 {
        '+'
    } else {
        '/'
    }
}

/// The standard Base64 text of some bytes (RFC 4648): each group of three
/// bytes gives four characters, and a final group of one or two bytes is
/// padded with `=` to four.
pub open spec fn base64_text(bytes: Seq<u8>) -> Seq<char>
    decreases bytes.len(),
{
    let b0 = bytes[0] as int;
    let b1 = bytes[1] as int;
    let b2 = bytes[2] as int;
    if bytes.len() == 0 {
        Seq::empty()
    } else if bytes.len() == 1 {
        seq![base64_char(b0 / 4), base64_char((b0 % 4) * 16), '=', '=']
    } else if bytes.len() == 2 {
        seq![
            base64_char(b0 / 4),
            base64_char((b0 % 4) * 16 + b1 / 16),
            base64_char((b1 % 16) * 4),
            '=',
        ]
    } else {
        seq![
            base64_char(b0 / 4),
            base64_char((b0 % 4) * 16 + b1 / 16),
            base64_char((b1 % 16) * 4 + b2 / 64),
            base64_char(b2 % 64),
        ] + base64_text(bytes.skip(3))
    }
}

/// Encodes bytes with `base64::engine::general_purpose::STANDARD`, the
/// standard alphabet with padding; the result is the RFC 4648 encoding that
/// `base64_text` states.
#[verifier::external_body]
fn encode_base64(bytes: &Vec<u8>) -> (res: String)
    ensures
        res@ == base64_text(bytes@),
{
    base64::engine::general_purpose::STANDARD.encode(bytes)
}

/// The request for a library's candidate items.
#[derive(Debug)]
pub struct ItemsRequest {
    pub sort_by: &'static str,
    pub random_seed: Option<u64>,
    pub limit: usize,
}

/// What a library job asks for next.
#[derive(Debug)]
pub enum Step {
    /// Download this image, then call `on_download`.
    Download(ImageReference),
    /// Render the poster from `images()` at this size, then call `on_render`.
    Render { width: u32, height: u32 },
    /// Save these PNG bytes at this path, then call `on_saved`.
    Save { path: String, png: Vec<u8> },
    /// Post this Base64 body as the library's primary image, then call `on_uploaded`.
    Upload { body: String },
    /// The job is over.
    Done(Result<LibraryResult, PosterError>),
}

/// The stage a library job is in.
#[derive(Debug, Clone, Copy, PartialEq, Eq, Structural)]
pub enum Stage {
    Start,
    AwaitItems,
    Downloading,
    Rendering,
    Saving,
    Uploading,
    Finished,
}

/// The making of one library's poster: fetch the library's items, choose their
/// images, download images until the style has enough, render, then save
/// and upload as the task asks.
pub struct LibraryJob {
    stage: Stage,
    style: Style,
    resolution: Resolution,
    sort: Sort,
    upload: bool,
    output_path: Option<String>,
    title: String,
    references: Vec<ImageReference>,
    next: usize,
    images: Vec<PixelBuffer>,
    png: Vec<u8>,
    saved: bool,
}

/// The result a finished job reports.
pub open spec fn job_result(downloaded: int, saved: bool, uploaded: bool) -> LibraryResult {
    LibraryResult { downloaded_images: downloaded as usize, saved, uploaded }
}

impl LibraryJob {
    /// The stage the job is in.
    pub closed spec fn stage(&self) -> Stage {
        self.stage
    }

    /// The style of the poster.
    pub closed spec fn style(&self) -> Style {
        self.style
    }

    /// The images chosen from the library's items, in download order.
    pub closed spec fn references(&self) -> Seq<ImageRef> {
        self.references@.map_values(|r: ImageReference| r@)
    }

    /// How many chosen images have been tried.
    pub closed spec fn tried(&self) -> int {
        self.next as int
    }

    /// The images decoded so far, as width, height and bytes.
    pub closed spec fn decoded(&self) -> Seq<(u32, u32, Seq<u8>)> {
        self.images@.map_values(|b: PixelBuffer| (b.width, b.height, b.data@))
    }

    /// The poster's title.
    pub closed spec fn title_view(&self) -> Seq<char> {
        self.title@
    }

    /// Where the poster is saved, if the task saves posters.
    pub closed spec fn output_path_view(&self) -> Option<Seq<char>> {
        opt_view(self.output_path)
    }

    /// Whether the task uploads posters.
    pub closed spec fn uploads(&self) -> bool {
        self.upload
    }

    /// The size the poster is rendered at.
    pub closed spec fn resolution(&self) -> Resolution {
        self.resolution
    }

    /// The sort order of the library's items.
    pub closed spec fn sort(&self) -> Sort {
        self.sort
    }

    /// The PNG bytes of the rendered poster, once there are some.
    pub closed spec fn png(&self) -> Seq<u8> {
        self.png@
    }

    /// Whether the poster has been saved.
    pub closed spec fn has_saved(&self) -> bool {
        self.saved
    }

    /// The job never holds more images than it tried, nor more than the
    /// style needs, and every image it holds is a whole RGBA buffer; a poster
    /// is saved only where the task saves posters, before any upload.
    pub closed spec fn wf(&self) -> bool {
        &&& self.next <= self.references@.len()
        &&& self.images@.len() <= self.next
        &&& self.images@.len() <= spec_required_images(self.style)
        &&& forall|i: int| 0 <= i < self.images@.len() ==> (#[trigger] self.images@[i]).wf()
        &&& (self.stage == Stage::Rendering || self.stage == Stage::Saving || self.stage
            == Stage::Uploading) ==> self.images@.len() > 0
        &&& (self.stage == Stage::Start || self.stage == Stage::AwaitItems) ==> (self.next == 0
            && self.images@.len() == 0)
        &&& (self.stage != Stage::Uploading && self.stage != Stage::Finished) ==> !self.saved
        &&& self.stage == Stage::Saving ==> self.output_path is Some
        &&& self.stage == Stage::Uploading ==> (self.upload && (self.saved <==> self.output_path is Some))
    }

    /// A job for one library of a task.
    pub fn new(settings: &TaskSettings, library: &Library, config: &LibraryConfig) -> (res: LibraryJob)
        ensures
            res.wf(),
            res.stage() == Stage::Start,
            res.style() == settings.style,
            res.resolution() == settings.resolution,
            res.sort() == config.sort,
            res.uploads() == settings.upload,
            res.output_path_view() == match settings.output_dir {
                Some(dir) => Some(spec_output_path(dir@, settings.id@, library.name@)),
                None => None,
            },
            res.title_view() == spec_poster_title(config.title@, library.name@),
            res.references().len() == 0,
            res.tried() == 0,
            res.decoded().len() == 0,
            !res.has_saved(),
    {
        let output = match &settings.output_dir {
            Some(dir) => Some(output_path(dir.as_str(), settings.id.as_str(), library.name.as_str())),
            None => None,
        };
        let job = LibraryJob {
            stage: Stage::Start,
            style: settings.style,
            resolution: settings.resolution,
            sort: config.sort,
            upload: settings.upload,
            output_path: output,
            title: poster_title(&config.title, &library.name),
            references: Vec::new(),
            next: 0,
            images: Vec::new(),
            png: Vec::new(),
            saved: false,
        };
        assert(job.references() =~= Seq::<ImageRef>::empty());
        assert(job.decoded() =~= Seq::<(u32, u32, Seq<u8>)>::empty());
        job
    }

    /// The poster's title.
    pub fn title(&self) -> (res: &String)
        ensures
            res@ == self.title_view(),
    {
        &self.title
    }

    /// The images decoded so far, for rendering.
    pub fn images(&self) -> (res: &Vec<PixelBuffer>)
        ensures
            res@.map_values(|b: PixelBuffer| (b.width, b.height, b.data@)) == self.decoded(),
    {
        &self.images
    }

    /// Starts the job: asks for at most 50 of the library's items in the
    /// configured order, with a fresh random seed for the random order.
    pub fn start(&mut self) -> (res: ItemsRequest)
        requires
            old(self).wf(),
            old(self).stage() == Stage::Start,
        ensures
            final(self).wf(),
            final(self).stage() == Stage::AwaitItems,
            res.sort_by@ == spec_sort_name(old(self).sort()),
            res.random_seed is Some <==> old(self).sort() == Sort::Random,
            res.limit == 50,
            final(self).references() == old(self).references(),
            final(self).tried() == old(self).tried(),
            final(self).decoded() == old(self).decoded(),
            final(self).style() == old(self).style(),
            final(self).title_view() == old(self).title_view(),
            final(self).output_path_view() == old(self).output_path_view(),
            final(self).uploads() == old(self).uploads(),
            final(self).resolution() == old(self).resolution(),
            final(self).has_saved() == old(self).has_saved(),
    {
        self.stage = Stage::AwaitItems;
        let seed = if self.sort == Sort::Random {
            Some(random_seed())
        } else {
            None
        };
        ItemsRequest { sort_by: sort_name(self.sort), random_seed: seed, limit: 50 }
    }

    /// The step after the chosen images have been tried up to `next`: the next
    /// download while the style needs more images and untried ones remain;
    /// otherwise rendering, or the failure for want of images or of a usable size.
    fn after_download(&mut self) -> (res: Step)
        requires
            old(self).stage == Stage::Downloading,
            !old(self).saved,
            old(self).next <= old(self).references@.len(),
            old(self).images@.len() <= old(self).next,
            old(self).images@.len() <= spec_required_images(old(self).style),
            forall|i: int| 0 <= i < old(self).images@.len() ==> (#[trigger] old(self).images@[i]).wf(),
        ensures
            final(self).wf(),
            final(self).references@ == old(self).references@,
            final(self).next == old(self).next,
            final(self).images@ == old(self).images@,
            final(self).style == old(self).style,
            final(self).title == old(self).title,
            final(self).output_path == old(self).output_path,
            final(self).upload == old(self).upload,
            final(self).resolution == old(self).resolution,
            final(self).sort == old(self).sort,
            final(self).saved == old(self).saved,
            final(self).png@ == old(self).png@,
            if old(self).images@.len() < spec_required_images(old(self).style) && old(self).next
                < old(self).references@.len() {
                &&& final(self).stage == Stage::Downloading
                &&& res matches Step::Download(r) && r@ == old(self).references@[old(self).next as int]@
            } else if old(self).images@.len() == 0 {
                &&& final(self).stage == Stage::Finished
                &&& res matches Step::Done(Err(PosterError::Render(RenderError::MissingImage)))
            } else {
                match spec_dimensions(old(self).resolution) {
                    Some(d) => {
                        &&& final(self).stage == Stage::Rendering
                        &&& res matches Step::Render { width, height } && width == d.0 && height
                            == d.1
                    },
                    None => {
                        &&& final(self).stage == Stage::Finished
                        &&& res matches Step::Done(
                            Err(PosterError::Render(RenderError::InvalidResolution(m))),
                        ) && m@ == zero_side_message()
                    },
                }
            },
    {
        if self.images.len() < required_images(self.style) && self.next < self.references.len() {
            let r = &self.references[self.next];
            let copy = ImageReference {
                item_id: r.item_id.clone(),
                kind: r.kind,
                tag: match &r.tag {
                    Some(t) => Some(t.clone()),
                    None => None,
                },
            };
            Step::Download(copy)
        } else if self.images.len() == 0 {
            self.stage = Stage::Finished;
            Step::Done(Err(PosterError::Render(RenderError::MissingImage)))
        } else {
            match self.resolution.dimensions() {
                Ok((width, height)) => {
                    self.stage = Stage::Rendering;
                    Step::Render { width, height }
                },
                Err(message) => {
                    self.stage = Stage::Finished;
                    Step::Done(Err(PosterError::Render(RenderError::InvalidResolution(message))))
                },
            }
        }
    }
}

impl LibraryJob {
    /// Takes the library's items: chooses their images for the style (see
    /// `select_image_references`) and asks for the first download; a library
    /// without usable images fails.
    pub fn on_items(&mut self, items: &Vec<MediaItem>) -> (res: Step)
        requires
            old(self).wf(),
            old(self).stage() == Stage::AwaitItems,
        ensures
            final(self).wf(),
            final(self).references() == spec_select(items@, old(self).style()),
            final(self).tried() == 0,
            final(self).decoded() == old(self).decoded(),
            final(self).style() == old(self).style(),
            final(self).title_view() == old(self).title_view(),
            final(self).output_path_view() == old(self).output_path_view(),
            final(self).uploads() == old(self).uploads(),
            final(self).resolution() == old(self).resolution(),
            final(self).has_saved() == old(self).has_saved(),
            if spec_select(items@, old(self).style()).len() == 0 {
                &&& final(self).stage() == Stage::Finished
                &&& res matches Step::Done(Err(PosterError::Render(RenderError::MissingImage)))
            } else {
                &&& final(self).stage() == Stage::Downloading
                &&& res matches Step::Download(r) && r@ == spec_select(items@, old(self).style())[0]
            },
    {
        proof {
            assert(self.images@.len() == self.decoded().len());
        }
        self.references = select_image_references(items, self.style);
        self.next = 0;
        self.stage = Stage::Downloading;
        if self.images.len() == 0 && self.references.len() == 0 {
            self.stage = Stage::Finished;
            return Step::Done(Err(PosterError::Render(RenderError::MissingImage)));
        }
        let ghost before = *self;
        let res = self.after_download();
        proof {
            assert(self.references() == before.references());
            assert(self.decoded() == before.decoded());
            if before.images@.len() == 0 {
                assert(before.references@.len() > 0);
                assert(before.references@[0]@ == before.references()[0]);
            }
        }
        res
    }

    /// Takes the outcome of the last download: its bytes, or nothing where
    /// the download failed. Bytes that decode as an image add that image;
    /// then the next image is asked for while the style needs more and
    /// untried ones remain, and otherwise the poster is rendered, or the
    /// library fails for want of images or of a usable size.
    pub fn on_download(&mut self, bytes: Option<Vec<u8>>) -> (res: Step)
        requires
            old(self).wf(),
            old(self).stage() == Stage::Downloading,
            old(self).tried() < old(self).references().len(),
            old(self).decoded().len() < spec_required_images(old(self).style()),
        ensures
            final(self).wf(),
            final(self).references() == old(self).references(),
            final(self).tried() == old(self).tried() + 1,
            final(self).decoded() == match bytes {
                Some(b) => match decoded_image(b@) {
                    Some(image) => old(self).decoded().push(image),
                    None => old(self).decoded(),
                },
                None => old(self).decoded(),
            },
            final(self).style() == old(self).style(),
            final(self).title_view() == old(self).title_view(),
            final(self).output_path_view() == old(self).output_path_view(),
            final(self).uploads() == old(self).uploads(),
            final(self).resolution() == old(self).resolution(),
            final(self).has_saved() == old(self).has_saved(),
            if final(self).decoded().len() < spec_required_images(final(self).style())
                && final(self).tried() < final(self).references().len() {
                &&& final(self).stage() == Stage::Downloading
                &&& res matches Step::Download(r) && r@ == final(self).references()[final(self).tried()]
            } else if final(self).decoded().len() == 0 {
                &&& final(self).stage() == Stage::Finished
                &&& res matches Step::Done(Err(PosterError::Render(RenderError::MissingImage)))
            } else {
                match spec_dimensions(final(self).resolution()) {
                    Some(d) => {
                        &&& final(self).stage() == Stage::Rendering
                        &&& res matches Step::Render { width, height } && width == d.0 && height
                            == d.1
                    },
                    None => {
                        &&& final(self).stage() == Stage::Finished
                        &&& res matches Step::Done(
                            Err(PosterError::Render(RenderError::InvalidResolution(m))),
                        ) && m@ == zero_side_message()
                    },
                }
            },
    {
        let ghost start = *self;
        assert(self.references@.len() == self.references().len());
        let next = self.next;
        let count = self.references.len();
        assert(next < count);
        match bytes {
            Some(b) => match decode_image(&b) {
                Ok((width, height, data)) => match PixelBuffer::from_raw(width, height, data) {
                    Some(image) => {
                        self.images.push(image);
                        proof {
                            assert(self.decoded() =~= start.decoded().push(
                                (image.width, image.height, image.data@),
                            ));
                        }
                    },
                    None => {},
                },
                Err(_) => {},
            },
            None => {},
        }
        self.next = next + 1;
        let ghost before = *self;
        let res = self.after_download();
        proof {
            assert(self.references() == before.references());
            assert(self.decoded() == before.decoded());
            if before.images@.len() < spec_required_images(before.style) && before.next
                < before.references@.len() {
                assert(before.references@[before.next as int]@ == before.references()[before.next as int]);
            }
        }
        res
    }

    /// Takes the rendered poster and encodes it as PNG; then the poster is
    /// saved where the task saves posters, otherwise uploaded where it uploads
    /// them, otherwise the job is done. A poster that cannot be encoded fails.
    pub fn on_render(&mut self, poster: &PixelBuffer) -> (res: Step)
        requires
            old(self).wf(),
            old(self).stage() == Stage::Rendering,
            poster.wf(),
        ensures
            final(self).wf(),
            final(self).decoded() == old(self).decoded(),
            final(self).references() == old(self).references(),
            final(self).tried() == old(self).tried(),
            final(self).style() == old(self).style(),
            final(self).output_path_view() == old(self).output_path_view(),
            final(self).uploads() == old(self).uploads(),
            final(self).has_saved() == old(self).has_saved(),
            res matches Step::Done(Err(e)) ==> e matches PosterError::EncodeImage(_),
            res matches Step::Done(Err(_)) <==> png_encoded(poster.width, poster.height, poster.data@) is None,
            !(res matches Step::Done(Err(_))) ==> {
                &&& Some(final(self).png()) == png_encoded(poster.width, poster.height, poster.data@)
                &&& match old(self).output_path_view() {
                    Some(path) => {
                        &&& final(self).stage() == Stage::Saving
                        &&& res matches Step::Save { path: p, png } && p@ == path && png@
                            == final(self).png()
                    },
                    None => if old(self).uploads() {
                        &&& final(self).stage() == Stage::Uploading
                        &&& res matches Step::Upload { body } && body@ == base64_text(
                            final(self).png(),
                        )
                    } else {
                        &&& final(self).stage() == Stage::Finished
                        &&& res matches Step::Done(Ok(r)) && r == job_result(
                            old(self).decoded().len() as int,
                            false,
                            false,
                        )
                    },
                }
            },
            res matches Step::Done(Ok(r)) ==> result_follows_task(
                r,
                old(self).style(),
                old(self).output_path_view() is Some,
                old(self).uploads(),
            ),
    {
        let png = match encode_png(poster) {
            Ok(png) => png,
            Err(err) => {
                self.stage = Stage::Finished;
                return Step::Done(Err(PosterError::EncodeImage(err)));
            },
        };
        self.png = png;
        match &self.output_path {
            Some(path) => {
                self.stage = Stage::Saving;
                let copy = self.png.clone();
                assert(copy@ =~= self.png@);
                Step::Save { path: path.clone(), png: copy }
            },
            None => {
                if self.upload {
                    self.stage = Stage::Uploading;
                    Step::Upload { body: encode_base64(&self.png) }
                } else {
                    self.stage = Stage::Finished;
                    Step::Done(
                        Ok(
                            LibraryResult {
                                downloaded_images: self.images.len(),
                                saved: false,
                                uploaded: false,
                            },
                        ),
                    )
                }
            },
        }
    }

    /// Notes that the poster was saved; then it is uploaded where the task
    /// uploads posters, and otherwise the job is done.
    pub fn on_saved(&mut self) -> (res: Step)
        requires
            old(self).wf(),
            old(self).stage() == Stage::Saving,
        ensures
            final(self).wf(),
            final(self).decoded() == old(self).decoded(),
            final(self).png() == old(self).png(),
            final(self).uploads() == old(self).uploads(),
            final(self).has_saved(),
            if old(self).uploads() {
                &&& final(self).stage() == Stage::Uploading
                &&& res matches Step::Upload { body } && body@ == base64_text(old(self).png())
            } else {
                &&& final(self).stage() == Stage::Finished
                &&& res matches Step::Done(Ok(r)) && r == job_result(
                    old(self).decoded().len() as int,
                    true,
                    false,
                )
            },
            res matches Step::Done(Ok(r)) ==> result_follows_task(
                r,
                old(self).style(),
                old(self).output_path_view() is Some,
                old(self).uploads(),
            ),
    {
        self.saved = true;
        if self.upload {
            self.stage = Stage::Uploading;
            Step::Upload { body: encode_base64(&self.png) }
        } else {
            self.stage = Stage::Finished;
            Step::Done(
                Ok(LibraryResult { downloaded_images: self.images.len(), saved: true, uploaded: false }),
            )
        }
    }

    /// Notes that the poster was uploaded; the job is done.
    pub fn on_uploaded(&mut self) -> (res: Step)
        requires
            old(self).wf(),
            old(self).stage() == Stage::Uploading,
        ensures
            final(self).wf(),
            final(self).stage() == Stage::Finished,
            res matches Step::Done(Ok(r)) && r == job_result(
                old(self).decoded().len() as int,
                old(self).has_saved(),
                true,
            ),
            res matches Step::Done(Ok(r)) ==> result_follows_task(
                r,
                old(self).style(),
                old(self).output_path_view() is Some,
                old(self).uploads(),
            ),
    {
        self.stage = Stage::Finished;
        Step::Done(
            Ok(
                LibraryResult {
                    downloaded_images: self.images.len(),
                    saved: self.saved,
                    uploaded: true,
                },
            ),
        )
    }
}

/// A job that has rendered, or is saving or uploading, holds at least one
/// image and never more than its style needs; so a finished job reports
/// between one and that many downloaded images.
pub proof fn lemma_job_image_count(job: LibraryJob)
    requires
        job.wf(),
    ensures
        job.decoded().len() <= spec_required_images(job.style()),
        (job.stage() == Stage::Rendering || job.stage() == Stage::Saving || job.stage()
            == Stage::Uploading) ==> job.decoded().len() >= 1,
        job.decoded().len() <= job.tried() <= job.references().len(),
{
}

/// How the scheduler treats a poster task.
#[derive(Debug, Clone, Copy, PartialEq, Eq, Structural)]
pub enum TaskPlan {
    /// The task has no schedule and is skipped.
    MissingCron,
    /// The task names a media server without a client and is skipped.
    UnknownServer,
    /// The task can be set up.
    Ready,
}

/// How the scheduler treats a poster task with the given schedule and server.
pub open spec fn spec_plan_task(has_cron: bool, server_known: bool) -> TaskPlan {
    if !has_cron {
        TaskPlan::MissingCron
    } else if !server_known {
        TaskPlan::UnknownServer
    } else {
        TaskPlan::Ready
    }
}

/// Decides whether a poster task can be scheduled: it needs a schedule, and
/// a client for the media server it names.
pub fn plan_task(cron: &Option<String>, server: &String, clients: &crate::media_server::ClientRegistry) -> (res: TaskPlan)
    ensures
        res == spec_plan_task(
            cron is Some,
            exists|i: int| 0 <= i < clients.clients().len() && clients.clients()[i].id == server@,
        ),
        cron is Some && crate::media_server::has_id(clients.clients(), server@) ==> res == TaskPlan::Ready,
        res == TaskPlan::UnknownServer <==> (cron is Some && !crate::media_server::has_id(
            clients.clients(),
            server@,
        )),
        res == TaskPlan::MissingCron <==> cron is None,
{
    if cron.is_none() {
        TaskPlan::MissingCron
    } else if clients.get(server.as_str()).is_none() {
        TaskPlan::UnknownServer
    } else {
        TaskPlan::Ready
    }
}

/// A task is scheduled exactly when it has a schedule and its server has a
/// client: it is skipped for its schedule only where it has none, and for its
/// server only where it has a schedule and no client serves its server.
pub proof fn lemma_plan_task_ready_iff_known(has_cron: bool, server_known: bool)
    ensures
        spec_plan_task(has_cron, server_known) == TaskPlan::Ready <==> (has_cron && server_known),
        spec_plan_task(has_cron, server_known) == TaskPlan::UnknownServer <==> (has_cron
            && !server_known),
        spec_plan_task(has_cron, server_known) == TaskPlan::MissingCron <==> !has_cron,
{
}

/// What a task run asks for next.
#[derive(Debug)]
pub enum RunStep {
    /// The server has no library of the configured name at this position; it
    /// was recorded as failed.
    Missing { config: usize },
    /// Make the poster of this configured library from this server library,
    /// then call `record`.
    Process { library: usize, config: usize },
    /// Every configured library has been recorded.
    Finished,
}

/// A library's result as the task's settings make it: saved exactly where the
/// task saves posters, uploaded exactly where it uploads them, from at least
/// one image and no more than the style needs.
pub open spec fn result_follows_task(r: LibraryResult, style: Style, saves: bool, upload: bool) -> bool {
    &&& r.saved == saves
    &&& r.uploaded == upload
    &&& 1 <= r.downloaded_images <= spec_required_images(style)
}

/// A summary as the task's settings make it: every success saved where the
/// task saves posters and uploaded where it uploads them, and between one
/// image and what the style needs downloaded for each success.
pub open spec fn summary_follows_task(s: Summary, style: Style, saves: bool, upload: bool) -> bool {
    &&& s.saved_count == (if saves { s.succeeded_count } else { 0 })
    &&& s.uploaded_count == (if upload { s.succeeded_count } else { 0 })
    &&& s.succeeded_count <= s.downloaded_image_count
    &&& s.downloaded_image_count <= spec_required_images(style) * s.succeeded_count
}

/// One run of a poster task: the configured libraries in order, each matched
/// by name with a library of the server, each recorded once in the summary.
pub struct TaskRun {
    summary: Summary,
    style: Style,
    saves: bool,
    upload: bool,
    libraries: Vec<Library>,
    configs: Vec<LibraryConfig>,
    next: usize,
    awaiting: bool,
}

impl TaskRun {
    /// The summary so far.
    pub closed spec fn summary_view(&self) -> Summary {
        self.summary
    }

    /// The libraries the server lists.
    pub closed spec fn libraries_view(&self) -> Seq<Library> {
        self.libraries@
    }

    /// The configured libraries.
    pub closed spec fn configs_view(&self) -> Seq<LibraryConfig> {
        self.configs@
    }

    /// The poster style of the task.
    pub closed spec fn style_view(&self) -> Style {
        self.style
    }

    /// Whether the task saves its posters.
    pub closed spec fn saves(&self) -> bool {
        self.saves
    }

    /// Whether the task uploads its posters.
    pub closed spec fn uploads(&self) -> bool {
        self.upload
    }

    /// How many configured libraries have been recorded.
    pub closed spec fn done(&self) -> int {
        self.next as int
    }

    /// Whether the run waits for the outcome of a library.
    pub closed spec fn is_awaiting(&self) -> bool {
        self.awaiting
    }

    /// The summary counts each configured library recorded so far, once.
    pub closed spec fn wf(&self) -> bool {
        &&& self.summary.wf()
        &&& self.summary.library_count == self.configs@.len()
        &&& self.summary.recorded() == self.next
        &&& self.next <= self.configs@.len()
        &&& self.awaiting ==> self.next < self.configs@.len()
        &&& summary_follows_task(self.summary, self.style, self.saves, self.upload)
    }

    /// A run over the configured libraries of a task, against the libraries
    /// the server lists.
    pub fn new(settings: &TaskSettings, libraries: Vec<Library>, configs: Vec<LibraryConfig>) -> (res: TaskRun)
        ensures
            res.wf(),
            !res.is_awaiting(),
            res.done() == 0,
            res.libraries_view() == libraries@,
            res.configs_view() == configs@,
            res.style_view() == settings.style,
            res.saves() == (settings.output_dir is Some),
            res.uploads() == settings.upload,
            res.summary_view().task_id == settings.id,
            res.summary_view().library_count == configs@.len(),
            res.summary_view().succeeded_count == 0,
            res.summary_view().failed_count == 0,
            res.summary_view().downloaded_image_count == 0,
            res.summary_view().generated_count == 0,
            res.summary_view().saved_count == 0,
            res.summary_view().uploaded_count == 0,
    {
        let count = configs.len();
        TaskRun {
            summary: Summary::new(settings.id.clone(), count),
            style: settings.style,
            saves: settings.output_dir.is_some(),
            upload: settings.upload,
            libraries,
            configs,
            next: 0,
            awaiting: false,
        }
    }

    /// The server library at a position.
    pub fn library(&self, index: usize) -> (res: &Library)
        requires
            index < self.libraries_view().len(),
        ensures
            *res == self.libraries_view()[index as int],
    {
        &self.libraries[index]
    }

    /// The configured library at a position.
    pub fn config(&self, index: usize) -> (res: &LibraryConfig)
        requires
            index < self.configs_view().len(),
        ensures
            *res == self.configs_view()[index as int],
    {
        &self.configs[index]
    }

    /// The next step: the summary when every configured library has been
    /// recorded; a failure, recorded at once, for a name the server does not
    /// list; otherwise the library to process (the last the server lists
    /// under that name).
    pub fn advance(&mut self) -> (res: RunStep)
        requires
            old(self).wf(),
            !old(self).is_awaiting(),
        ensures
            final(self).wf(),
            final(self).libraries_view() == old(self).libraries_view(),
            final(self).configs_view() == old(self).configs_view(),
            final(self).style_view() == old(self).style_view(),
            final(self).saves() == old(self).saves(),
            final(self).uploads() == old(self).uploads(),
            final(self).summary_view().task_id == old(self).summary_view().task_id,
            final(self).summary_view().library_count == final(self).configs_view().len(),
            final(self).summary_view().recorded() == final(self).done(),
            final(self).summary_view().wf(),
            old(self).done() == old(self).configs_view().len() ==> {
                &&& res matches RunStep::Finished
                &&& final(self).summary_view() == old(self).summary_view()
                &&& final(self).done() == old(self).done()
                &&& !final(self).is_awaiting()
            },
            old(self).done() < old(self).configs_view().len() ==> match spec_find_library(
                old(self).libraries_view(),
                old(self).configs_view()[old(self).done()].name@,
            ) {
                None => {
                    &&& res matches RunStep::Missing { config } && config == old(self).done()
                    &&& final(self).done() == old(self).done() + 1
                    &&& !final(self).is_awaiting()
                    &&& final(self).summary_view().failed_count == old(self).summary_view().failed_count
                        + 1
                    &&& final(self).summary_view().succeeded_count == old(
                        self,
                    ).summary_view().succeeded_count
                },
                Some(i) => {
                    &&& res matches RunStep::Process { library, config } && library == i && config
                        == old(self).done()
                    &&& final(self).done() == old(self).done()
                    &&& final(self).is_awaiting()
                    &&& final(self).summary_view() == old(self).summary_view()
                },
            },
    {
        if self.next == self.configs.len() {
            return RunStep::Finished;
        }
        let index = self.next;
        match find_library(&self.libraries, &self.configs[index].name) {
            None => {
                self.summary.record_failure();
                self.next = index + 1;
                RunStep::Missing { config: index }
            },
            Some(i) => {
                self.awaiting = true;
                RunStep::Process { library: i, config: index }
            },
        }
    }

    /// Records the outcome of the library being processed: its result, or
    /// nothing where making its poster failed.
    pub fn record(&mut self, outcome: Option<LibraryResult>)
        requires
            old(self).wf(),
            old(self).is_awaiting(),
            outcome matches Some(r) ==> old(self).accepts(r),
        ensures
            final(self).wf(),
            !final(self).is_awaiting(),
            final(self).done() == old(self).done() + 1,
            final(self).libraries_view() == old(self).libraries_view(),
            final(self).configs_view() == old(self).configs_view(),
            final(self).style_view() == old(self).style_view(),
            final(self).saves() == old(self).saves(),
            final(self).uploads() == old(self).uploads(),
            final(self).summary_view().task_id == old(self).summary_view().task_id,
            final(self).summary_view().library_count == final(self).configs_view().len(),
            final(self).summary_view().recorded() == final(self).done(),
            final(self).summary_view().wf(),
            match outcome {
                Some(r) => {
                    &&& final(self).summary_view().succeeded_count == old(
                        self,
                    ).summary_view().succeeded_count + 1
                    &&& final(self).summary_view().failed_count == old(self).summary_view().failed_count
                    &&& final(self).summary_view().downloaded_image_count == old(
                        self,
                    ).summary_view().downloaded_image_count + r.downloaded_images
                    &&& final(self).summary_view().saved_count == old(self).summary_view().saved_count
                        + count_of(r.saved)
                    &&& final(self).summary_view().uploaded_count == old(
                        self,
                    ).summary_view().uploaded_count + count_of(r.uploaded)
                },
                None => {
                    &&& final(self).summary_view().failed_count == old(self).summary_view().failed_count
                        + 1
                    &&& final(self).summary_view().succeeded_count == old(
                        self,
                    ).summary_view().succeeded_count
                    &&& final(self).summary_view().downloaded_image_count == old(
                        self,
                    ).summary_view().downloaded_image_count
                },
            },
    {
        match outcome {
            Some(result) => self.summary.record_success(result),
            None => self.summary.record_failure(),
        }
        self.next = self.next + 1;
        self.awaiting = false;
    }

    /// Whether the run takes a library's result: saved exactly where the task
    /// saves posters, uploaded exactly where it uploads them, from at least one
    /// image and no more than the style needs, with the downloaded-image count
    /// staying within `usize`.
    pub open spec fn accepts(&self, r: LibraryResult) -> bool {
        &&& result_follows_task(r, self.style_view(), self.saves(), self.uploads())
        &&& self.summary_view().downloaded_image_count + r.downloaded_images <= usize::MAX
    }

    /// Whether a result can be recorded, as `accepts` states.
    pub fn can_record(&self, r: &LibraryResult) -> (res: bool)
        ensures
            res == self.accepts(*r),
    {
        r.saved == self.saves && r.uploaded == self.upload && 1 <= r.downloaded_images
            && r.downloaded_images <= required_images(self.style)
            && r.downloaded_images <= usize::MAX - self.summary.downloaded_image_count
    }

    /// Ends the run with its summary.
    pub fn into_summary(self) -> (res: Summary)
        ensures
            res == self.summary_view(),
    {
        self.summary
    }
}

/// A finished run has recorded every configured library exactly once: the
/// libraries that succeeded and those that failed add up to all of them, and
/// each success generated one poster.
pub proof fn lemma_finished_run_counts_every_library(run: TaskRun)
    requires
        run.wf(),
        run.done() == run.configs_view().len(),
    ensures
        run.summary_view().succeeded_count + run.summary_view().failed_count
            == run.summary_view().library_count,
        run.summary_view().generated_count == run.summary_view().succeeded_count,
        run.summary_view().saved_count <= run.summary_view().succeeded_count,
        run.summary_view().uploaded_count <= run.summary_view().succeeded_count,
{
}

/// At every point of a run the summary follows the task's settings: each
/// success was saved exactly where the task saves posters and uploaded exactly
/// where it uploads them, and downloaded at least one image and no more than
/// the task's style needs.
pub proof fn lemma_run_summary_follows_task(run: TaskRun)
    requires
        run.wf(),
    ensures
        run.summary_view().saved_count == (if run.saves() {
            run.summary_view().succeeded_count
        } else {
            0
        }),
        run.summary_view().uploaded_count == (if run.uploads() {
            run.summary_view().succeeded_count
        } else {
            0
        }),
        run.summary_view().succeeded_count <= run.summary_view().downloaded_image_count,
        run.summary_view().downloaded_image_count <= spec_required_images(run.style_view())
            * run.summary_view().succeeded_count,
{
}

} // verus!
