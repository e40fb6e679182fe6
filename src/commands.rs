//! The decisions behind the commands: which image `show` prints, the rows of
//! the image listing, how a relative time reads, and what `reset` removes.
use vstd::prelude::*;

use crate::catalog::catalog_wf;
use crate::config::{opt_text, Config};
use crate::image::{download_url, image_file_name, Image};
use crate::opt::{ImagePart, ResetItem, ShowKind};
use crate::state::{candidates, catalog_names, AppState, SelectError, MAX_CATALOG_LEN};
use crate::sync::all_named;
use crate::text::{contains_text, decimal, decimal_string, join_texts, join_with, texts};

verus! {

/// Why `show` has nothing to print.
#[derive(Debug, Clone, Copy, PartialEq, Eq, Structural)]
pub enum ShowError {
    /// No current image is set, or the catalog is empty.
    NoCurrentImage,
    /// Drawing a random image failed.
    Select(SelectError),
    /// The latest record's download URL carries no `id` to name its file by.
    MissingImageId,
}

/// The file name of the image that `show` prints. For a random image with
/// `update` the drawn name becomes the current image; the caller saves the
/// state. The catalog itself never changes.
pub fn show(state: &mut AppState, config: &Config, kind: ShowKind) -> (r: Result<String, ShowError>)
    requires
        old(state).image_data.wf(),
        old(state).image_data@.len() <= MAX_CATALOG_LEN,
    ensures
        final(state).image_data == old(state).image_data,
        match kind {
            ShowKind::Current => {
                &&& final(state).current_image == old(state).current_image
                &&& match old(state).current_image {
                    Some(p) => r == Ok::<String, ShowError>(p),
                    None => r == Err::<String, ShowError>(ShowError::NoCurrentImage),
                }
            },
            ShowKind::Latest => {
                let imgs = old(state).image_data@;
                &&& final(state).current_image == old(state).current_image
                &&& imgs.len() == 0 ==> r == Err::<String, ShowError>(ShowError::NoCurrentImage)
                &&& imgs.len() > 0 ==> forall|i: int|
                    0 <= i < imgs.len() ==> (#[trigger] imgs[i]).full_start_date
                        <= imgs.last().full_start_date
                &&& imgs.len() > 0 ==> match image_file_name(
                    imgs.last(),
                    config.size,
                    config.ext,
                ) {
                    Some(n) => r matches Ok(p) && p@ == n,
                    None => r == Err::<String, ShowError>(ShowError::MissingImageId),
                }
            },
            ShowKind::Random { update } => {
                let imgs = old(state).image_data@;
                &&& imgs.len() == 0 ==> r == Err::<String, ShowError>(
                    ShowError::Select(SelectError::NoImages),
                )
                &&& imgs.len() > 0 && !all_named(imgs, config.size, config.ext) ==> r == Err::<
                    String,
                    ShowError,
                >(ShowError::Select(SelectError::MissingImageId))
                &&& imgs.len() > 0 && all_named(imgs, config.size, config.ext) ==> (r matches Ok(
                    p,
                ) && candidates(
                    catalog_names(imgs, config.size, config.ext),
                    opt_text(old(state).current_image),
                ).contains(p@))
                &&& (update && r is Ok) ==> final(state).current_image == Some(r->Ok_0)
                &&& !(update && r is Ok) ==> final(state).current_image == old(
                    state,
                ).current_image
            },
        },
{
    match kind {
        ShowKind::Current => match &state.current_image {
            Some(p) => Ok(p.clone()),
            None => Err(ShowError::NoCurrentImage),
        },
        ShowKind::Random { update } => {
            match state.get_random_image(config) {
                Ok(p) => {
                    if update {
                        state.current_image = Some(p.clone());
                    }
                    Ok(p)
                },
                Err(e) => Err(ShowError::Select(e)),
            }
        },
        ShowKind::Latest => {
            let images = state.image_data.images();
            if images.len() == 0 {
                return Err(ShowError::NoCurrentImage);
            }
            proof {
                lemma_last_is_latest(images@);
            }
            let last = &images[images.len() - 1];
            assert(*last == images@.last());
            match last.file_name(config) {
                Some(n) => Ok(n),
                None => Err(ShowError::MissingImageId),
            }
        },
    }
}

/// In a well-formed catalog no record starts after the last one.
proof fn lemma_last_is_latest(imgs: Seq<Image>)
    requires
        catalog_wf(imgs),
        imgs.len() > 0,
    ensures
        forall|i: int|
            0 <= i < imgs.len() ==> (#[trigger] imgs[i]).full_start_date
                <= imgs.last().full_start_date,
{
    assert forall|i: int| 0 <= i < imgs.len() implies (#[trigger] imgs[i]).full_start_date
        <= imgs.last().full_start_date by {
        if i < imgs.len() - 1 {
            assert(imgs[i].full_start_date <= imgs[imgs.len() - 1].full_start_date);
        }
    }
}

} // verus!

verus! {

/// A span split into calendar and clock units, largest first.
#[derive(Debug, Clone, Copy, PartialEq, Eq, Structural)]
pub struct SpanParts {
    pub years: i64,
    pub months: i64,
    pub days: i64,
    pub hours: i64,
    pub minutes: i64,
    pub seconds: i64,
}

/// One unit of a relative time: `3y` in the short form, `3 years` or
/// `1 year` in the long one; nothing when the unit is not positive.
pub open spec fn unit_part(
    v: i64,
    short_label: Seq<char>,
    single: Seq<char>,
    plural: Seq<char>,
    short: bool,
) -> Seq<Seq<char>> {
    if v <= 0 {
        Seq::empty()
    } else if short {
        seq![decimal(v as nat) + short_label]
    } else {
        seq![decimal(v as nat) + " "@ + (if v == 1 {
            single
        } else {
            plural
        })]
    }
}

/// The positive units of `s`, largest first.
pub open spec fn relative_units(s: SpanParts, short: bool) -> Seq<Seq<char>> {
    unit_part(s.years, "y"@, "year"@, "years"@, short) + unit_part(
        s.months,
        "mo"@,
        "month"@,
        "months"@,
        short,
    ) + unit_part(s.days, "d"@, "day"@, "days"@, short) + unit_part(
        s.hours,
        "h"@,
        "hour"@,
        "hours"@,
        short,
    ) + unit_part(s.minutes, "m"@, "minute"@, "minutes"@, short) + unit_part(
        s.seconds,
        "s"@,
        "second"@,
        "seconds"@,
        short,
    )
}

/// A relative time: its positive units joined by `, `; with none, `today`
/// when rounded to days and `now` otherwise.
pub open spec fn relative_spec(s: SpanParts, short: bool, approx: bool) -> Seq<char> {
    let units = relative_units(s, short);
    if units.len() == 0 {
        if approx {
            "today"@
        } else {
            "now"@
        }
    } else {
        join_with(units, ", "@)
    }
}

fn push_unit(
    parts: &mut Vec<String>,
    v: i64,
    short_label: &str,
    single: &str,
    plural: &str,
    short: bool,
)
    ensures
        texts(final(parts)@) == texts(old(parts)@) + unit_part(
            v,
            short_label@,
            single@,
            plural@,
            short,
        ),
{
    if v > 0 {
        let mut t = decimal_string(v as u64);
        if short {
            t.append(short_label);
        } else {
            t.append(" ");
            if v == 1 {
                t.append(single);
            } else {
                t.append(plural);
            }
        }
        assert(t@ == unit_part(v, short_label@, single@, plural@, short)[0]);
        let ghost before = texts(parts@);
        parts.push(t);
        assert(texts(parts@) =~= before + unit_part(v, short_label@, single@, plural@, short));
    } else {
        assert(texts(parts@) =~= texts(parts@) + unit_part(
            v,
            short_label@,
            single@,
            plural@,
            short,
        ));
    }
}

/// Writes a span as a relative time, in the short form (`1y, 2mo`) or the
/// long one (`1 year, 2 months`).
pub fn relative_text(span: &SpanParts, short: bool, approx: bool) -> (r: String)
    ensures
        r@ == relative_spec(*span, short, approx),
{
    let mut parts: Vec<String> = Vec::new();
    push_unit(&mut parts, span.years, "y", "year", "years", short);
    push_unit(&mut parts, span.months, "mo", "month", "months", short);
    push_unit(&mut parts, span.days, "d", "day", "days", short);
    push_unit(&mut parts, span.hours, "h", "hour", "hours", short);
    push_unit(&mut parts, span.minutes, "m", "minute", "minutes", short);
    push_unit(&mut parts, span.seconds, "s", "second", "seconds", short);
    assert(texts(parts@) =~= relative_units(*span, short));
    if parts.len() == 0 {
        if approx {
            String::from_str("today")
        } else {
            String::from_str("now")
        }
    } else {
        join_texts(&parts, ", ")
    }
}

/// What `reset` removes.
#[derive(Debug, Clone, Copy, PartialEq, Eq, Structural)]
pub struct ResetPlan {
    /// The directory of downloaded images.
    pub images: bool,
    /// The directory of the state file.
    pub state: bool,
}

fn has_item(items: &Vec<ResetItem>, item: ResetItem) -> (r: bool)
    ensures
        r == items@.contains(item),
{
    let mut i: usize = 0;
    while i < items.len()
        invariant
            i <= items@.len(),
            forall|k: int| 0 <= k < i ==> items@[k] != item,
        decreases items@.len() - i,
    {
        if items[i] == item {
            return true;
        }
        i = i + 1;
    }
    false
}

/// Each part is removed when everything is asked for or the part is named.
pub fn reset_plan(all: bool, items: &Vec<ResetItem>) -> (r: ResetPlan)
    ensures
        r.images == (all || items@.contains(ResetItem::Images)),
        r.state == (all || items@.contains(ResetItem::State)),
{
    ResetPlan {
        images: all || has_item(items, ResetItem::Images),
        state: all || has_item(items, ResetItem::State),
    }
}

/// How many images a dry run reports: ` (1 image)`, ` (n images)`, or
/// nothing when the directory does not exist.
pub open spec fn image_count_spec(count: Option<u64>) -> Seq<char> {
    match count {
        None => Seq::empty(),
        Some(n) => if n == 1 {
            " (1 image)"@
        } else {
            " ("@ + decimal(n as nat) + " images)"@
        },
    }
}

/// The image count of a dry run's message.
pub fn image_count_suffix(count: Option<u64>) -> (r: String)
    ensures
        r@ == image_count_spec(count),
{
    match count {
        None => String::new(),
        Some(n) => if n == 1 {
            String::from_str(" (1 image)")
        } else {
            let mut s = String::from_str(" (");
            let d = decimal_string(n);
            s.append(d.as_str());
            s.append(" images)");
            s
        },
    }
}

} // verus!

verus! {

/// The path `name` under `dir`, as std's `Path::join` forms it, as text.
pub uninterp spec fn joined_path(dir: Seq<char>, name: Seq<char>) -> Seq<char>;

/// Relies on std's `Path::join`: `name` under the directory `dir`.
#[verifier::external_body]
fn join_path(dir: &str, name: &str) -> (r: String)
    ensures
        r@ == joined_path(dir@, name@),
{
    std::path::Path::new(dir).join(name).to_string_lossy().into_owned()
}

/// Which images the listing shows instead of the catalog.
#[derive(Debug, Clone, Copy, PartialEq, Eq, Structural)]
pub enum ImageFilterKind {
    /// Catalog records whose file is not in the image directory.
    Missing,
    /// Files in the image directory that no record names.
    Untracked,
}

/// Why the listing is refused.
#[derive(Debug, Clone, Copy, PartialEq, Eq, Structural)]
pub enum ListError {
    /// The catalog is empty: synchronise first.
    NoImages,
    /// A record's download URL carries no `id` to name its file by.
    MissingImageId,
}

pub open spec fn true_false(b: bool) -> Seq<char> {
    if b {
        "true"@
    } else {
        "false"@
    }
}

/// One column of a record's row.
pub open spec fn image_column(
    img: Image,
    part: ImagePart,
    config: Config,
    current: Option<Seq<char>>,
    time: Seq<char>,
) -> Seq<char> {
    let name = image_file_name(img, config.size, config.ext).unwrap();
    match part {
        ImagePart::Path => name,
        ImagePart::FullPath => joined_path(config.project.data_dir@, name),
        ImagePart::Title => img.title@,
        ImagePart::Url => download_url(img, config.size, config.ext),
        ImagePart::Time => time,
        ImagePart::Current => true_false(current == Some(name)),
        ImagePart::Copyright => img.copyright@,
    }
}

/// The row of the `k`th record: its columns in `order`, tab separated.
pub open spec fn listing_row(
    state: AppState,
    config: Config,
    order: Seq<ImagePart>,
    times: Seq<String>,
    k: int,
) -> Seq<char> {
    join_with(
        order.map_values(
            |p: ImagePart|
                image_column(
                    state.image_data@[k],
                    p,
                    config,
                    opt_text(state.current_image),
                    times[k]@,
                ),
        ),
        "\t"@,
    )
}

/// Rows of the first `n` records, in catalog order; with `missing_only`,
/// of those whose file is not among `local` only.
pub open spec fn listing(
    state: AppState,
    config: Config,
    order: Seq<ImagePart>,
    times: Seq<String>,
    local: Seq<Seq<char>>,
    missing_only: bool,
    n: int,
) -> Seq<Seq<char>>
    decreases n,
{
    if n <= 0 {
        Seq::empty()
    } else {
        let earlier = listing(state, config, order, times, local, missing_only, n - 1);
        let name = image_file_name(state.image_data@[n - 1], config.size, config.ext).unwrap();
        if missing_only && local.contains(name) {
            earlier
        } else {
            earlier.push(listing_row(state, config, order, times, n - 1))
        }
    }
}

/// The columns of an untracked file: its name and its full path where asked
/// for; the other columns do not apply.
pub open spec fn untracked_columns(f: Seq<char>, parts: Seq<ImagePart>, dir: Seq<char>) -> Seq<
    Seq<char>,
>
    decreases parts.len(),
{
    if parts.len() == 0 {
        Seq::empty()
    } else {
        let earlier = untracked_columns(f, parts.drop_last(), dir);
        match parts.last() {
            ImagePart::Path => earlier.push(f),
            ImagePart::FullPath => earlier.push(joined_path(dir, f)),
            _ => earlier,
        }
    }
}

/// Rows of the first `n` files that no record names.
pub open spec fn untracked_listing(
    files: Seq<Seq<char>>,
    known: Seq<Seq<char>>,
    parts: Seq<ImagePart>,
    dir: Seq<char>,
    n: int,
) -> Seq<Seq<char>>
    decreases n,
{
    if n <= 0 {
        Seq::empty()
    } else {
        let earlier = untracked_listing(files, known, parts, dir, n - 1);
        if known.contains(files[n - 1]) {
            earlier
        } else {
            earlier.push(join_with(untracked_columns(files[n - 1], parts, dir), "\t"@))
        }
    }
}

/// The columns a listing prints: every one when asked for or none is named.
pub open spec fn column_order(format: Seq<ImagePart>, all: bool) -> Seq<ImagePart> {
    if all || format.len() == 0 {
        crate::opt::all_parts()
    } else {
        format
    }
}

fn column_text(
    img: &Image,
    part: ImagePart,
    config: &Config,
    name: &String,
    current: &Option<String>,
    time: &String,
) -> (r: String)
    requires
        image_file_name(*img, config.size, config.ext) == Some(name@),
    ensures
        r@ == image_column(*img, part, *config, opt_text(*current), time@),
{
    match part {
        ImagePart::Path => name.clone(),
        ImagePart::FullPath => join_path(config.project.data_dir.as_str(), name.as_str()),
        ImagePart::Title => img.title.clone(),
        ImagePart::Url => img.to_url(config),
        ImagePart::Time => time.clone(),
        ImagePart::Current => {
            let is_current = match current {
                Some(c) => *c == *name,
                None => false,
            };
            if is_current {
                String::from_str("true")
            } else {
                String::from_str("false")
            }
        },
        ImagePart::Copyright => img.copyright.clone(),
    }
}

fn row_text(
    img: &Image,
    order: &Vec<ImagePart>,
    config: &Config,
    name: &String,
    current: &Option<String>,
    time: &String,
) -> (r: String)
    requires
        image_file_name(*img, config.size, config.ext) == Some(name@),
    ensures
        r@ == join_with(
            order@.map_values(
                |p: ImagePart| image_column(*img, p, *config, opt_text(*current), time@),
            ),
            "\t"@,
        ),
{
    let ghost cols = order@.map_values(
        |p: ImagePart| image_column(*img, p, *config, opt_text(*current), time@),
    );
    let mut line: Vec<String> = Vec::new();
    let mut i: usize = 0;
    while i < order.len()
        invariant
            i <= order@.len(),
            image_file_name(*img, config.size, config.ext) == Some(name@),
            cols == order@.map_values(
                |p: ImagePart| image_column(*img, p, *config, opt_text(*current), time@),
            ),
            texts(line@) =~= cols.subrange(0, i as int),
        decreases order@.len() - i,
    {
        let c = column_text(img, order[i], config, name, current, time);
        let ghost before = texts(line@);
        line.push(c);
        assert(texts(line@) =~= before.push(cols[i as int]));
        assert(cols.subrange(0, i + 1) =~= cols.subrange(0, i as int).push(cols[i as int]));
        i = i + 1;
    }
    assert(cols.subrange(0, i as int) =~= cols);
    join_texts(&line, "\t")
}

/// The rows of the image listing, one string of tab-separated columns each.
///
/// `local_files` names the files in the image directory; `times` holds each
/// record's start time as it is to be shown, in catalog order. Without a
/// filter every record is listed, in ascending order of start time; with
/// `Missing` only those whose file is absent; with `Untracked` the files that
/// no record names, with the name and full-path columns of `format` only.
pub fn list_images(
    state: &AppState,
    config: &Config,
    image_filter: Option<ImageFilterKind>,
    format: &Vec<ImagePart>,
    all: bool,
    local_files: &Vec<String>,
    times: &Vec<String>,
) -> (r: Result<Vec<String>, ListError>)
    requires
        times@.len() == state.image_data@.len(),
    ensures
        state.image_data@.len() == 0 ==> r == Err::<Vec<String>, ListError>(ListError::NoImages),
        state.image_data@.len() > 0 && !all_named(state.image_data@, config.size, config.ext)
            ==> r == Err::<Vec<String>, ListError>(ListError::MissingImageId),
        state.image_data@.len() > 0 && all_named(state.image_data@, config.size, config.ext) ==> (
        r matches Ok(rows) && texts(rows@) == match image_filter {
            Some(ImageFilterKind::Untracked) => untracked_listing(
                texts(local_files@),
                catalog_names(state.image_data@, config.size, config.ext),
                format@,
                config.project.data_dir@,
                local_files@.len() as int,
            ),
            Some(ImageFilterKind::Missing) => listing(
                *state,
                *config,
                column_order(format@, all),
                times@,
                texts(local_files@),
                true,
                state.image_data@.len() as int,
            ),
            None => listing(
                *state,
                *config,
                column_order(format@, all),
                times@,
                texts(local_files@),
                false,
                state.image_data@.len() as int,
            ),
        }),
{
    let images = state.image_data.images();
    let ghost size = config.size;
    let ghost ext = config.ext;
    if images.len() == 0 {
        return Err(ListError::NoImages);
    }
    let mut names: Vec<String> = Vec::new();
    let mut i: usize = 0;
    while i < images.len()
        invariant
            i <= images@.len(),
            images@ == state.image_data@,
            size == config.size,
            ext == config.ext,
            names@.len() == i,
            forall|k: int|
                0 <= k < i ==> image_file_name(images@[k], size, ext) == Some(
                    (#[trigger] names@[k])@,
                ),
        decreases images@.len() - i,
    {
        let fname = images[i].file_name(config);
        assert(opt_text(fname) == image_file_name(images@[i as int], size, ext));
        match fname {
            Some(n) => names.push(n),
            None => return Err(ListError::MissingImageId),
        }
        i = i + 1;
    }
    assert forall|k: int| 0 <= k < images@.len() implies (#[trigger] image_file_name(
        images@[k],
        size,
        ext,
    )) is Some by {
        assert(image_file_name(images@[k], size, ext) == Some(names@[k]@));
    }
    let ghost names_spec = catalog_names(images@, size, ext);
    assert(texts(names@) =~= names_spec) by {
        assert forall|k: int| 0 <= k < names@.len() implies texts(names@)[k] == names_spec[k] by {
            assert(image_file_name(images@[k], size, ext) == Some(names@[k]@));
        }
    }

    let mut rows: Vec<String> = Vec::new();
    match image_filter {
        Some(ImageFilterKind::Untracked) => {
            let ghost files = texts(local_files@);
            let mut i: usize = 0;
            while i < local_files.len()
                invariant
                    i <= local_files@.len(),
                    files == texts(local_files@),
                    texts(names@) == names_spec,
                    texts(rows@) == untracked_listing(
                        files,
                        names_spec,
                        format@,
                        config.project.data_dir@,
                        i as int,
                    ),
                decreases local_files@.len() - i,
            {
                assert(files[i as int] == local_files@[i as int]@);
                if !contains_text(&names, &local_files[i]) {
                    let line = untracked_row(&local_files[i], format, config);
                    rows.push(line);
                }
                i = i + 1;
            }
        },
        _ => {
            let missing_only = match image_filter {
                Some(ImageFilterKind::Missing) => true,
                _ => false,
            };
            let order = if all || format.len() == 0 {
                ImagePart::all()
            } else {
                clone_parts(format)
            };
            assert(order@ == column_order(format@, all));
            let ghost local = texts(local_files@);
            let mut k: usize = 0;
            while k < images.len()
                invariant
                    k <= images@.len(),
                    images@ == state.image_data@,
                    times@.len() == images@.len(),
                    names@.len() == images@.len(),
                    size == config.size,
                    ext == config.ext,
                    local == texts(local_files@),
                    order@ == column_order(format@, all),
                    missing_only == (image_filter == Some(ImageFilterKind::Missing)),
                    forall|j: int|
                        0 <= j < images@.len() ==> image_file_name(images@[j], size, ext) == Some(
                            (#[trigger] names@[j])@,
                        ),
                    texts(rows@) == listing(
                        *state,
                        *config,
                        order@,
                        times@,
                        local,
                        missing_only,
                        k as int,
                    ),
                decreases images@.len() - k,
            {
                let ghost before = texts(rows@);
                assert(image_file_name(images@[k as int], size, ext) == Some(names@[k as int]@));
                let skip = missing_only && contains_text(local_files, &names[k]);
                if !skip {
                    let line = row_text(
                        &images[k],
                        &order,
                        config,
                        &names[k],
                        &state.current_image,
                        &times[k],
                    );
                    rows.push(line);
                    assert(texts(rows@) =~= before.push(
                        listing_row(*state, *config, order@, times@, k as int),
                    ));
                }
                k = k + 1;
            }
        },
    }
    Ok(rows)
}

fn clone_parts(v: &Vec<ImagePart>) -> (r: Vec<ImagePart>)
    ensures
        r@ == v@,
{
    let mut r: Vec<ImagePart> = Vec::new();
    let mut i: usize = 0;
    while i < v.len()
        invariant
            i <= v@.len(),
            r@ =~= v@.subrange(0, i as int),
        decreases v@.len() - i,
    {
        r.push(v[i]);
        i = i + 1;
    }
    assert(v@.subrange(0, i as int) =~= v@);
    r
}

fn untracked_row(f: &String, format: &Vec<ImagePart>, config: &Config) -> (r: String)
    ensures
        r@ == join_with(untracked_columns(f@, format@, config.project.data_dir@), "\t"@),
{
    let mut line: Vec<String> = Vec::new();
    let mut i: usize = 0;
    while i < format.len()
        invariant
            i <= format@.len(),
            texts(line@) == untracked_columns(
                f@,
                format@.subrange(0, i as int),
                config.project.data_dir@,
            ),
        decreases format@.len() - i,
    {
        let ghost before = texts(line@);
        let ghost pre = format@.subrange(0, i + 1);
        assert(pre.drop_last() =~= format@.subrange(0, i as int));
        match format[i] {
            ImagePart::Path => {
                line.push(f.clone());
                assert(texts(line@) =~= before.push(f@));
            },
            ImagePart::FullPath => {
                line.push(join_path(config.project.data_dir.as_str(), f.as_str()));
                assert(texts(line@) =~= before.push(
                    joined_path(config.project.data_dir@, f@),
                ));
            },
            _ => {},
        }
        i = i + 1;
    }
    assert(format@.subrange(0, i as int) =~= format@);
    join_texts(&line, "\t")
}

} // verus!
