//! Projection of a page's schema-less property bag into a fixed-shape
//! business entity.
//!
//! Every sub-lookup degrades independently to an empty or absent default;
//! only two gates make the whole extraction fail, yielding no entity: a
//! missing page id, and a missing or empty `Brand Name` title.

use vstd::prelude::*;
use crate::strlib::{opt_view, str_views};
use crate::value::{DocValue, spec_at, spec_get, spec_str};

verus! {

/// One numbered image: its slot and its resolved URL.
#[derive(Debug, Clone, PartialEq)]
pub struct ImageEntry {
    pub slot: u32,
    pub url: String,
}

/// The media of an entity: the numbered images in slot-then-file order,
/// and up to five named single images, each omitted when unresolved.
#[derive(Debug, Clone, PartialEq)]
pub struct MediaInfo {
    pub images: Vec<ImageEntry>,
    pub hero_image: Option<String>,
    pub cover: Option<String>,
    pub avatar: Option<String>,
    pub square_image_1: Option<String>,
    pub square_image_2: Option<String>,
}

/// The two independently optional video URLs of an entity.
#[derive(Debug, Clone, PartialEq)]
pub struct VideoInfo {
    pub video_1: Option<String>,
    pub video_2: Option<String>,
}

/// The fixed-shape record a page's property bag is projected into.
#[derive(Debug, Clone, PartialEq)]
pub struct Entity {
    pub id: String,
    pub name: String,
    pub services: Vec<String>,
    pub description: String,
    pub website: String,
    pub tagline: String,
    pub slug: String,
    pub media: MediaInfo,
    pub videos: VideoInfo,
}

/// The property named `name` of the page's property bag, if any.
pub open spec fn spec_prop(page: DocValue, name: Seq<char>) -> Option<DocValue> {
    match spec_get(page, "properties"@) {
        Some(props) => spec_get(props, name),
        None => None,
    }
}

/// The plain text of the first entry of the array under `field`, if any.
pub open spec fn spec_first_rich(prop: DocValue, field: Seq<char>) -> Option<Seq<char>> {
    match spec_get(prop, field) {
        Some(arr) => match spec_at(arr, 0) {
            Some(first) => match spec_get(first, "plain_text"@) {
                Some(pt) => spec_str(pt),
                None => None,
            },
            None => None,
        },
        None => None,
    }
}

/// The page's id string, if any.
pub open spec fn spec_page_id(page: DocValue) -> Option<Seq<char>> {
    match spec_get(page, "id"@) {
        Some(v) => spec_str(v),
        None => None,
    }
}

/// The first plain-text run of the `Brand Name` title property, if any.
pub open spec fn spec_title_text(page: DocValue) -> Option<Seq<char>> {
    match spec_prop(page, "Brand Name"@) {
        Some(p) => spec_first_rich(p, "title"@),
        None => None,
    }
}

/// The first plain-text run of the rich-text property `name`; empty when
/// absent or malformed.
pub open spec fn spec_rich_text_default(page: DocValue, name: Seq<char>) -> Seq<char> {
    match spec_prop(page, name) {
        Some(p) => match spec_first_rich(p, "rich_text"@) {
            Some(s) => s,
            None => Seq::empty(),
        },
        None => Seq::empty(),
    }
}

/// The URL string of the URL-typed property `name`, if any.
pub open spec fn spec_url_opt(page: DocValue, name: Seq<char>) -> Option<Seq<char>> {
    match spec_prop(page, name) {
        Some(p) => match spec_get(p, "url"@) {
            Some(u) => spec_str(u),
            None => None,
        },
        None => None,
    }
}

/// The URL string of the URL-typed property `name`; empty when absent.
pub open spec fn spec_url_default(page: DocValue, name: Seq<char>) -> Seq<char> {
    match spec_url_opt(page, name) {
        Some(s) => s,
        None => Seq::empty(),
    }
}

/// The option names of a multi-select option array, in order, skipping
/// malformed options.
pub open spec fn option_names(opts: Seq<DocValue>) -> Seq<Seq<char>>
    decreases opts.len(),
{
    if opts.len() == 0 {
        Seq::empty()
    } else {
        let rest = option_names(opts.drop_first());
        match spec_get(opts[0], "name"@) {
            Some(n) => match spec_str(n) {
                Some(s) => seq![s] + rest,
                None => rest,
            },
            None => rest,
        }
    }
}

/// The service names under the multi-select property `Services`; empty
/// when absent or malformed.
pub open spec fn spec_services(page: DocValue) -> Seq<Seq<char>> {
    match spec_prop(page, "Services"@) {
        Some(p) => match spec_get(p, "multi_select"@) {
            Some(ms) => match ms {
                DocValue::Array(opts) => option_names(opts@),
                _ => Seq::empty(),
            },
            None => Seq::empty(),
        },
        None => Seq::empty(),
    }
}

/// The file entries of the file-list property `name`; empty when absent
/// or malformed.
pub open spec fn spec_files(page: DocValue, name: Seq<char>) -> Seq<DocValue> {
    match spec_prop(page, name) {
        Some(p) => match spec_get(p, "files"@) {
            Some(f) => match f {
                DocValue::Array(items) => items@,
                _ => Seq::empty(),
            },
            None => Seq::empty(),
        },
        None => Seq::empty(),
    }
}

/// A file entry's URL: directly under `url`, or else under the nested
/// file object's `url` field.
pub open spec fn spec_file_url(file: DocValue) -> Option<Seq<char>> {
    let direct = match spec_get(file, "url"@) {
        Some(u) => spec_str(u),
        None => None,
    };
    match direct {
        Some(s) => Some(s),
        None => match spec_get(file, "file"@) {
            Some(f) => match spec_get(f, "url"@) {
                Some(u) => spec_str(u),
                None => None,
            },
            None => None,
        },
    }
}

/// The resolvable URLs of a file list, in file order.
pub open spec fn file_urls(files: Seq<DocValue>) -> Seq<Seq<char>>
    decreases files.len(),
{
    if files.len() == 0 {
        Seq::empty()
    } else {
        let rest = file_urls(files.drop_first());
        match spec_file_url(files[0]) {
            Some(u) => seq![u] + rest,
            None => rest,
        }
    }
}

/// The source property name of numbered image slot `n`.
pub open spec fn slot_key(n: int) -> Seq<char> {
    if n == 1 {
        "Image [1]"@
    } else if n == 2 {
        "Image [2]"@
    } else if n == 3 {
        "Image [3]"@
    } else if n == 4 {
        "Image [4]"@
    } else if n == 5 {
        "Image [5]"@
    } else if n == 6 {
        "Image [6]"@
    } else if n == 7 {
        "Image [7]"@
    } else if n == 8 {
        "Image [8]"@
    } else if n == 9 {
        "Image [9]"@
    } else {
        "Image [10]"@
    }
}

/// The views of a sequence of image entries.
pub open spec fn image_views(entries: Seq<ImageEntry>) -> Seq<(u32, Seq<char>)> {
    entries.map_values(|e: ImageEntry| (e.slot, e.url@))
}

/// The resolved images of numbered slot `n`, each tagged with `n`,
/// in file order.
pub open spec fn slot_entries(page: DocValue, n: u32) -> Seq<(u32, Seq<char>)> {
    file_urls(spec_files(page, slot_key(n as int))).map_values(|u: Seq<char>| (n, u))
}

/// The resolved images of numbered slots 1 up to `n`, slot by slot.
pub open spec fn images_upto(page: DocValue, n: u32) -> Seq<(u32, Seq<char>)>
    decreases n,
{
    if n == 0 {
        Seq::empty()
    } else {
        images_upto(page, (n - 1) as u32) + slot_entries(page, n)
    }
}

/// All resolved numbered images, slots 1 through 10.
pub open spec fn spec_images(page: DocValue) -> Seq<(u32, Seq<char>)> {
    images_upto(page, 10)
}

/// The first file's resolved URL of the file-list property `name`, if any.
pub open spec fn spec_special(page: DocValue, name: Seq<char>) -> Option<Seq<char>> {
    let files = spec_files(page, name);
    if files.len() > 0 {
        spec_file_url(files[0])
    } else {
        None
    }
}

/// Whether a page passes both extraction gates: an id string and a
/// non-empty `Brand Name` title.
pub open spec fn entity_extractable(page: DocValue) -> bool {
    spec_page_id(page) is Some && spec_title_text(page) is Some
}

/// Whether `e` is the entity that the projection rules yield for `page`.
pub open spec fn entity_matches(e: Entity, page: DocValue) -> bool {
    &&& Some(e.id@) == spec_page_id(page)
    &&& Some(e.name@) == spec_title_text(page)
    &&& str_views(e.services@) == spec_services(page)
    &&& e.description@ == spec_rich_text_default(page, "Description"@)
    &&& e.website@ == spec_url_default(page, "Website"@)
    &&& e.tagline@ == spec_rich_text_default(page, "Tagline"@)
    &&& e.slug@ == spec_rich_text_default(page, "Slug"@)
    &&& image_views(e.media.images@) == spec_images(page)
    &&& opt_view(e.media.hero_image) == spec_special(page, "Hero Image"@)
    &&& opt_view(e.media.cover) == spec_special(page, "Cover"@)
    &&& opt_view(e.media.avatar) == spec_special(page, "Avatar"@)
    &&& opt_view(e.media.square_image_1) == spec_special(page, "Image [7.1] square image"@)
    &&& opt_view(e.media.square_image_2) == spec_special(page, "Image [7.2] square image"@)
    &&& opt_view(e.videos.video_1) == spec_url_opt(page, "Video 1"@)
    &&& opt_view(e.videos.video_2) == spec_url_opt(page, "Video 2"@)
}

/// The property named `name`, or `None` when the page has no property bag
/// or no such property.
fn prop_of<'a>(page: &'a DocValue, name: &str) -> (r: Option<&'a DocValue>)
    ensures
        match r {
            Some(v) => spec_prop(*page, name@) == Some(*v),
            None => spec_prop(*page, name@) is None,
        },
{
    match page.get("properties") {
        Some(props) => props.get(name),
        None => None,
    }
}

/// The plain text of the first entry of the array under `field`.
fn first_rich<'a>(prop: &'a DocValue, field: &str) -> (r: Option<&'a String>)
    ensures
        match r {
            Some(s) => spec_first_rich(*prop, field@) == Some(s@),
            None => spec_first_rich(*prop, field@) is None,
        },
{
    match prop.get(field) {
        Some(arr) => match arr.at(0) {
            Some(first) => match first.get("plain_text") {
                Some(pt) => pt.as_str(),
                None => None,
            },
            None => None,
        },
        None => None,
    }
}

/// The first plain-text run of the rich-text property `name`, or the
/// empty string.
fn rich_text_default(page: &DocValue, name: &str) -> (r: String)
    ensures
        r@ == spec_rich_text_default(*page, name@),
{
    match prop_of(page, name) {
        Some(p) => match first_rich(p, "rich_text") {
            Some(s) => s.clone(),
            None => String::new(),
        },
        None => String::new(),
    }
}

/// The URL of the URL-typed property `name`, if any.
fn url_opt(page: &DocValue, name: &str) -> (r: Option<String>)
    ensures
        opt_view(r) == spec_url_opt(*page, name@),
{
    match prop_of(page, name) {
        Some(p) => match p.get("url") {
            Some(u) => match u.as_str() {
                Some(s) => Some(s.clone()),
                None => None,
            },
            None => None,
        },
        None => None,
    }
}

/// The URL of the URL-typed property `name`, or the empty string.
fn url_default(page: &DocValue, name: &str) -> (r: String)
    ensures
        r@ == spec_url_default(*page, name@),
{
    match url_opt(page, name) {
        Some(s) => s,
        None => String::new(),
    }
}

proof fn lemma_option_names_snoc(opts: Seq<DocValue>, o: DocValue)
    ensures
        option_names(opts.push(o)) =~= option_names(opts) + match spec_get(o, "name"@) {
            Some(n) => match spec_str(n) {
                Some(s) => seq![s],
                None => Seq::<Seq<char>>::empty(),
            },
            None => Seq::<Seq<char>>::empty(),
        },
    decreases opts.len(),
{
    let tail = match spec_get(o, "name"@) {
        Some(n) => match spec_str(n) {
            Some(s) => seq![s],
            None => Seq::<Seq<char>>::empty(),
        },
        None => Seq::<Seq<char>>::empty(),
    };
    if opts.len() == 0 {
        assert(opts.push(o) =~= seq![o]);
        assert(seq![o].drop_first() =~= Seq::<DocValue>::empty());
        assert(option_names(Seq::<DocValue>::empty()) =~= Seq::<Seq<char>>::empty());
    } else {
        let q = opts.push(o);
        assert(q[0] == opts[0]);
        assert(q.drop_first() =~= opts.drop_first().push(o));
        lemma_option_names_snoc(opts.drop_first(), o);
    }
}

/// The service names under the multi-select property `Services`.
fn services_exec(page: &DocValue) -> (r: Vec<String>)
    ensures
        str_views(r@) == spec_services(*page),
{
    let mut out: Vec<String> = Vec::new();
    proof {
        assert(str_views(out@) =~= Seq::<Seq<char>>::empty());
    }
    let ms = match prop_of(page, "Services") {
        Some(p) => match p.get("multi_select") {
            Some(ms) => ms,
            None => {
                return out;
            },
        },
        None => {
            return out;
        },
    };
    let opts = match ms.as_array() {
        Some(o) => o,
        None => {
            return out;
        },
    };
    let n = opts.len();
    let mut i: usize = 0;
    proof {
        assert(opts@.take(0) =~= Seq::<DocValue>::empty());
    }
    while i < n
        invariant
            n == opts@.len(),
            i <= n,
            str_views(out@) =~= option_names(opts@.take(i as int)),
        decreases n - i,
    {
        let ghost old_out = out@;
        match opts[i].get("name") {
            Some(nm) => match nm.as_str() {
                Some(s) => {
                    out.push(s.clone());
                    proof {
                        assert(str_views(out@) =~= str_views(old_out).push(out@.last()@));
                    }
                },
                None => {},
            },
            None => {},
        }
        proof {
            lemma_option_names_snoc(opts@.take(i as int), opts@[i as int]);
            assert(opts@.take(i as int).push(opts@[i as int]) =~= opts@.take(i as int + 1));
        }
        i += 1;
    }
    proof {
        assert(opts@.take(n as int) =~= opts@);
    }
    out
}

/// The file entries of the file-list property `name`, or `None` when the
/// chain to them is absent or malformed.
fn files_of<'a>(page: &'a DocValue, name: &str) -> (r: Option<&'a Vec<DocValue>>)
    ensures
        match r {
            Some(f) => spec_files(*page, name@) == f@,
            None => spec_files(*page, name@) == Seq::<DocValue>::empty(),
        },
{
    match prop_of(page, name) {
        Some(p) => match p.get("files") {
            Some(f) => f.as_array(),
            None => None,
        },
        None => None,
    }
}

/// A file entry's URL: directly under `url`, or under the nested file
/// object's `url` field.
fn file_url_exec<'a>(file: &'a DocValue) -> (r: Option<&'a String>)
    ensures
        match r {
            Some(s) => spec_file_url(*file) == Some(s@),
            None => spec_file_url(*file) is None,
        },
{
    match file.get("url") {
        Some(u) => match u.as_str() {
            Some(s) => {
                return Some(s);
            },
            None => {},
        },
        None => {},
    }
    match file.get("file") {
        Some(f) => match f.get("url") {
            Some(u) => u.as_str(),
            None => None,
        },
        None => None,
    }
}

proof fn lemma_file_urls_snoc(files: Seq<DocValue>, f: DocValue)
    ensures
        file_urls(files.push(f)) =~= file_urls(files) + match spec_file_url(f) {
            Some(u) => seq![u],
            None => Seq::<Seq<char>>::empty(),
        },
    decreases files.len(),
{
    if files.len() == 0 {
        assert(files.push(f) =~= seq![f]);
        assert(seq![f].drop_first() =~= Seq::<DocValue>::empty());
        assert(file_urls(Seq::<DocValue>::empty()) =~= Seq::<Seq<char>>::empty());
    } else {
        let q = files.push(f);
        assert(q[0] == files[0]);
        assert(q.drop_first() =~= files.drop_first().push(f));
        lemma_file_urls_snoc(files.drop_first(), f);
    }
}

/// The source property name of numbered image slot `n`.
fn slot_key_exec(n: u32) -> (r: &'static str)
    requires
        1 <= n <= 10,
    ensures
        r@ == slot_key(n as int),
{
    if n == 1 {
        "Image [1]"
    } else if n == 2 {
        "Image [2]"
    } else if n == 3 {
        "Image [3]"
    } else if n == 4 {
        "Image [4]"
    } else if n == 5 {
        "Image [5]"
    } else if n == 6 {
        "Image [6]"
    } else if n == 7 {
        "Image [7]"
    } else if n == 8 {
        "Image [8]"
    } else if n == 9 {
        "Image [9]"
    } else {
        "Image [10]"
    }
}

/// The resolved images of numbered slot `n`, tagged with `n`, in file order.
fn slot_images(page: &DocValue, n: u32) -> (r: Vec<ImageEntry>)
    requires
        1 <= n <= 10,
    ensures
        image_views(r@) == slot_entries(*page, n),
{
    let key = slot_key_exec(n);
    let mut out: Vec<ImageEntry> = Vec::new();
    proof {
        assert(image_views(out@) =~= Seq::<(u32, Seq<char>)>::empty());
    }
    let files = match files_of(page, key) {
        Some(f) => f,
        None => {
            proof {
                assert(file_urls(Seq::<DocValue>::empty()) =~= Seq::<Seq<char>>::empty());
                assert(slot_entries(*page, n) =~= Seq::<(u32, Seq<char>)>::empty());
            }
            return out;
        },
    };
    let m = files.len();
    let mut i: usize = 0;
    proof {
        assert(files@.take(0) =~= Seq::<DocValue>::empty());
    }
    while i < m
        invariant
            1 <= n <= 10,
            m == files@.len(),
            i <= m,
            image_views(out@) =~= file_urls(files@.take(i as int)).map_values(
                |u: Seq<char>| (n, u),
            ),
        decreases m - i,
    {
        let ghost old_out = out@;
        match file_url_exec(&files[i]) {
            Some(u) => {
                out.push(ImageEntry { slot: n, url: u.clone() });
                proof {
                    assert(image_views(out@) =~= image_views(old_out).push(
                        (out@.last().slot, out@.last().url@),
                    ));
                }
            },
            None => {},
        }
        proof {
            lemma_file_urls_snoc(files@.take(i as int), files@[i as int]);
            assert(files@.take(i as int).push(files@[i as int]) =~= files@.take(i as int + 1));
            assert(image_views(out@) =~= file_urls(files@.take(i as int + 1)).map_values(
                |u: Seq<char>| (n, u),
            ));
        }
        i += 1;
    }
    proof {
        assert(files@.take(m as int) =~= files@);
    }
    out
}

/// All resolved numbered images, slots 1 through 10, in slot-then-file
/// order.
fn all_images(page: &DocValue) -> (r: Vec<ImageEntry>)
    ensures
        image_views(r@) == spec_images(*page),
{
    let mut out: Vec<ImageEntry> = Vec::new();
    let mut n: u32 = 1;
    proof {
        assert(image_views(out@) =~= images_upto(*page, 0));
    }
    while n <= 10
        invariant
            1 <= n <= 11,
            image_views(out@) == images_upto(*page, (n - 1) as u32),
        decreases 11 - n,
    {
        let ghost old_out = out@;
        let mut slot = slot_images(page, n);
        let ghost slot_view = slot@;
        out.append(&mut slot);
        proof {
            assert(out@ == old_out + slot_view);
            assert(image_views(out@) =~= image_views(old_out) + image_views(slot_view));
            assert(images_upto(*page, n) == images_upto(*page, (n - 1) as u32)
                + slot_entries(*page, n));
        }
        n += 1;
    }
    out
}

/// The first file's resolved URL of the file-list property `name`, if any.
fn special_image(page: &DocValue, name: &str) -> (r: Option<String>)
    ensures
        opt_view(r) == spec_special(*page, name@),
{
    let files = match files_of(page, name) {
        Some(f) => f,
        None => {
            return None;
        },
    };
    if files.len() > 0 {
        match file_url_exec(&files[0]) {
            Some(u) => Some(u.clone()),
            None => None,
        }
    } else {
        None
    }
}

/// Projects one raw page into a business entity.
///
/// Returns `None` exactly when the page lacks an id string or the first
/// plain-text run of its `Brand Name` title; every other absent or
/// malformed field degrades independently to its empty or absent default.
pub fn extract_page_info(page: &DocValue) -> (r: Option<Entity>)
    ensures
        match r {
            Some(e) => entity_extractable(*page) && entity_matches(e, *page),
            None => !entity_extractable(*page),
        },
{
    let id = match page.get("id") {
        Some(v) => match v.as_str() {
            Some(s) => s.clone(),
            None => {
                return None;
            },
        },
        None => {
            return None;
        },
    };
    let name = match prop_of(page, "Brand Name") {
        Some(p) => match first_rich(p, "title") {
            Some(s) => s.clone(),
            None => {
                return None;
            },
        },
        None => {
            return None;
        },
    };
    let services = services_exec(page);
    let description = rich_text_default(page, "Description");
    let website = url_default(page, "Website");
    let tagline = rich_text_default(page, "Tagline");
    let slug = rich_text_default(page, "Slug");
    let images = all_images(page);
    let media = MediaInfo {
        images,
        hero_image: special_image(page, "Hero Image"),
        cover: special_image(page, "Cover"),
        avatar: special_image(page, "Avatar"),
        square_image_1: special_image(page, "Image [7.1] square image"),
        square_image_2: special_image(page, "Image [7.2] square image"),
    };
    let videos = VideoInfo {
        video_1: url_opt(page, "Video 1"),
        video_2: url_opt(page, "Video 2"),
    };
    Some(
        Entity {
            id,
            name,
            services,
            description,
            website,
            tagline,
            slug,
            media,
            videos,
        },
    )
}

/// The pages of `pages` that pass both extraction gates, in order.
pub open spec fn extractable_pages(pages: Seq<DocValue>) -> Seq<DocValue>
    decreases pages.len(),
{
    if pages.len() == 0 {
        Seq::empty()
    } else {
        let rest = extractable_pages(pages.drop_first());
        if entity_extractable(pages[0]) {
            seq![pages[0]] + rest
        } else {
            rest
        }
    }
}

proof fn lemma_extractable_snoc(pages: Seq<DocValue>, p: DocValue)
    ensures
        extractable_pages(pages.push(p)) =~= extractable_pages(pages) + if entity_extractable(p) {
            seq![p]
        } else {
            Seq::<DocValue>::empty()
        },
    decreases pages.len(),
{
    if pages.len() == 0 {
        assert(pages.push(p) =~= seq![p]);
        assert(seq![p].drop_first() =~= Seq::<DocValue>::empty());
        assert(extractable_pages(Seq::<DocValue>::empty()) =~= Seq::<DocValue>::empty());
    } else {
        let q = pages.push(p);
        assert(q[0] == pages[0]);
        assert(q.drop_first() =~= pages.drop_first().push(p));
        lemma_extractable_snoc(pages.drop_first(), p);
    }
}

/// Projects every page of a query result, silently omitting each page
/// that cannot yield a minimal entity; the entities come in page order,
/// one for each extractable page.
pub fn extract_entities(pages: &Vec<DocValue>) -> (r: Vec<Entity>)
    ensures
        r@.len() == extractable_pages(pages@).len(),
        forall|i: int| 0 <= i < r@.len()
            ==> entity_matches(#[trigger] r@[i], extractable_pages(pages@)[i]),
{
    let mut out: Vec<Entity> = Vec::new();
    let n = pages.len();
    let mut i: usize = 0;
    proof {
        assert(pages@.take(0) =~= Seq::<DocValue>::empty());
        assert(extractable_pages(Seq::<DocValue>::empty()) =~= Seq::<DocValue>::empty());
    }
    while i < n
        invariant
            n == pages@.len(),
            i <= n,
            out@.len() == extractable_pages(pages@.take(i as int)).len(),
            forall|j: int| 0 <= j < out@.len()
                ==> entity_matches(#[trigger] out@[j], extractable_pages(pages@.take(i as int))[j]),
        decreases n - i,
    {
        match extract_page_info(&pages[i]) {
            Some(e) => {
                out.push(e);
            },
            None => {},
        }
        proof {
            lemma_extractable_snoc(pages@.take(i as int), pages@[i as int]);
            assert(pages@.take(i as int).push(pages@[i as int]) =~= pages@.take(i as int + 1));
        }
        i += 1;
    }
    proof {
        assert(pages@.take(n as int) =~= pages@);
    }
    out
}

} // verus!
