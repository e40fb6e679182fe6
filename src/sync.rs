//! Reconciling a remote listing with the local catalog: which records are new,
//! and which image files still have to be fetched.
use vstd::prelude::*;

use crate::catalog::{catalog_insert, has_image, insertion_point, merged, ImageData};
use crate::config::Config;
use crate::image::{download_url, image_file_name, same_image, Image};
use crate::opt::{Extension, Resolution};
use crate::text::{contains_text, texts};

verus! {

/// An image file to fetch: from where, and the name to store it under.
#[derive(Debug, PartialEq, Eq)]
pub struct Download {
    pub url: String,
    pub file_name: String,
}

/// What a synchronisation found: the titles of the records it started to
/// track, in listing order, and the files still to be fetched.
#[derive(Debug)]
pub struct SyncPlan {
    pub new_titles: Vec<String>,
    pub downloads: Vec<Download>,
}

/// Why a synchronisation was refused.
#[derive(Debug, Clone, Copy, PartialEq, Eq, Structural)]
pub enum SyncError {
    /// The download URL of a listed record carries no `id` to name its file by.
    MissingImageId,
}

pub open spec fn download_view(d: Download) -> (Seq<char>, Seq<char>) {
    (d.url@, d.file_name@)
}

pub open spec fn downloads_view(v: Seq<Download>) -> Seq<(Seq<char>, Seq<char>)> {
    v.map_values(|d: Download| download_view(d))
}

/// Titles of the listed records that were new when their turn came.
pub open spec fn newly_tracked(c: Seq<Image>, remote: Seq<Image>) -> Seq<Seq<char>>
    decreases remote.len(),
{
    if remote.len() == 0 {
        Seq::empty()
    } else {
        let earlier = newly_tracked(c, remote.drop_last());
        if has_image(merged(c, remote.drop_last()), remote.last()) {
            earlier
        } else {
            earlier.push(remote.last().title@)
        }
    }
}

/// Every listed record has a file name.
pub open spec fn all_named(remote: Seq<Image>, size: Resolution, ext: Extension) -> bool {
    forall|i: int| 0 <= i < remote.len() ==> (#[trigger] image_file_name(remote[i], size, ext)) is Some
}

/// Download URL and file name of each listed record.
pub open spec fn targets(remote: Seq<Image>, size: Resolution, ext: Extension) -> Seq<
    (Seq<char>, Seq<char>),
> {
    remote.map_values(
        |img: Image| (download_url(img, size, ext), image_file_name(img, size, ext).unwrap()),
    )
}

/// The targets whose file is neither present nor already scheduled, in order.
pub open spec fn pending(t: Seq<(Seq<char>, Seq<char>)>, present: Seq<Seq<char>>) -> Seq<
    (Seq<char>, Seq<char>),
>
    decreases t.len(),
{
    if t.len() == 0 {
        Seq::empty()
    } else if present.contains(t[0].1) {
        pending(t.drop_first(), present)
    } else {
        seq![t[0]] + pending(t.drop_first(), present.push(t[0].1))
    }
}

fn copy_texts(v: &Vec<String>) -> (r: Vec<String>)
    ensures
        texts(r@) == texts(v@),
{
    let mut r: Vec<String> = Vec::new();
    let mut i: usize = 0;
    while i < v.len()
        invariant
            i <= v@.len(),
            r@.len() == i,
            texts(r@) =~= texts(v@.subrange(0, i as int)),
        decreases v@.len() - i,
    {
        let ghost before = r@;
        r.push(v[i].clone());
        assert(r@ == before.push(v@[i as int]));
        assert(v@.subrange(0, i + 1) =~= v@.subrange(0, i as int).push(v@[i as int]));
        assert forall|k: int| 0 <= k <= i implies #[trigger] texts(r@)[k] == texts(
            v@.subrange(0, i + 1),
        )[k] by {
            if k < i {
                assert(r@[k] == before[k]);
                assert(texts(before)[k] == texts(v@.subrange(0, i as int))[k]);
            }
        }
        assert(texts(r@) =~= texts(v@.subrange(0, i + 1)));
        i = i + 1;
    }
    assert(v@.subrange(0, i as int) =~= v@);
    r
}

/// Merges a remote listing into the local catalog and plans the downloads.
///
/// `present` names the image files already on disk. Every listed record is
/// added unless the catalog has the same image; records only the catalog has
/// stay. A listed record's file is scheduled once unless it is present. When
/// some listed record has no file name the catalog is left as it was.
pub fn sync_images(
    local: &mut ImageData,
    remote: &Vec<Image>,
    config: &Config,
    present: &Vec<String>,
) -> (r: Result<SyncPlan, SyncError>)
    requires
        old(local).wf(),
    ensures
        final(local).wf(),
        !all_named(remote@, config.size, config.ext) ==> r == Err::<SyncPlan, SyncError>(
            SyncError::MissingImageId,
        ) && final(local)@ == old(local)@,
        all_named(remote@, config.size, config.ext) ==> (r matches Ok(plan) && final(local)@
            == merged(old(local)@, remote@) && texts(plan.new_titles@) == newly_tracked(
            old(local)@,
            remote@,
        ) && downloads_view(plan.downloads@) == pending(
            targets(remote@, config.size, config.ext),
            texts(present@),
        )),
{
    let ghost size = config.size;
    let ghost ext = config.ext;
    let ghost t = targets(remote@, size, ext);
    // File names first, so that a record without one changes nothing.
    let mut names: Vec<String> = Vec::new();
    let mut i: usize = 0;
    while i < remote.len()
        invariant
            i <= remote@.len(),
            local.wf(),
            local@ == old(local)@,
            size == config.size,
            ext == config.ext,
            names@.len() == i,
            forall|k: int|
                0 <= k < i ==> image_file_name(remote@[k], size, ext) == Some(
                    (#[trigger] names@[k])@,
                ),
        decreases remote@.len() - i,
    {
        let fname = remote[i].file_name(config);
        assert(crate::config::opt_text(fname) == image_file_name(remote@[i as int], size, ext));
        match fname {
            Some(n) => {
                names.push(n);
            },
            None => {
                return Err(SyncError::MissingImageId);
            },
        }
        i = i + 1;
    }
    assert forall|k: int| 0 <= k < remote@.len() implies (#[trigger] image_file_name(
        remote@[k],
        size,
        ext,
    )) is Some by {
        assert(image_file_name(remote@[k], size, ext) == Some(names@[k]@));
    }

    let ghost c0 = local@;
    let mut new_titles: Vec<String> = Vec::new();
    let mut i: usize = 0;
    while i < remote.len()
        invariant
            i <= remote@.len(),
            size == config.size,
            ext == config.ext,
            local.wf(),
            local@ == merged(c0, remote@.subrange(0, i as int)),
            texts(new_titles@) == newly_tracked(c0, remote@.subrange(0, i as int)),
        decreases remote@.len() - i,
    {
        let ghost prefix = remote@.subrange(0, i + 1);
        assert(prefix.drop_last() =~= remote@.subrange(0, i as int));
        let img = remote[i].clone();
        if local.insert(img) {
            new_titles.push(remote[i].title.clone());
            assert(texts(new_titles@) =~= newly_tracked(c0, prefix));
        }
        i = i + 1;
    }
    assert(remote@.subrange(0, i as int) =~= remote@);

    let mut seen = copy_texts(present);
    let mut downloads: Vec<Download> = Vec::new();
    let mut i: usize = 0;
    assert(t.subrange(0, t.len() as int) =~= t);
    while i < remote.len()
        invariant
            i <= remote@.len(),
            size == config.size,
            ext == config.ext,
            t == targets(remote@, size, ext),
            t.len() == remote@.len(),
            names@.len() == remote@.len(),
            forall|k: int|
                0 <= k < remote@.len() ==> image_file_name(remote@[k], size, ext) == Some(
                    (#[trigger] names@[k])@,
                ),
            downloads_view(downloads@) + pending(
                t.subrange(i as int, t.len() as int),
                texts(seen@),
            ) == pending(t, texts(present@)),
        decreases remote@.len() - i,
    {
        let ghost rest = t.subrange(i as int, t.len() as int);
        assert(rest.drop_first() =~= t.subrange(i + 1, t.len() as int));
        assert(rest[0] == t[i as int]);
        assert(rest[0].1 == names@[i as int]@);
        if !contains_text(&seen, &names[i]) {
            let url = remote[i].to_url(config);
            assert(t[i as int] == (
                download_url(remote@[i as int], size, ext),
                image_file_name(remote@[i as int], size, ext).unwrap(),
            ));
            assert(rest[0].0 == url@);
            let ghost before = downloads_view(downloads@);
            let ghost seen_before = texts(seen@);
            downloads.push(Download { url, file_name: names[i].clone() });
            seen.push(names[i].clone());
            assert(texts(seen@) =~= seen_before.push(rest[0].1));
            assert(downloads_view(downloads@) =~= before + seq![rest[0]]);
            assert(downloads_view(downloads@) + pending(rest.drop_first(), texts(seen@))
                =~= before + pending(rest, seen_before));
        }
        i = i + 1;
    }
    assert(t.subrange(i as int, t.len() as int) =~= Seq::<(Seq<char>, Seq<char>)>::empty());
    assert(downloads_view(downloads@) =~= pending(t, texts(present@)));
    Ok(SyncPlan { new_titles, downloads })
}

} // verus!

verus! {

/// A record the catalog has stays after another is added.
pub proof fn lemma_insert_keeps(s: Seq<Image>, x: Image, y: Image)
    requires
        has_image(s, x),
    ensures
        has_image(catalog_insert(s, y), x),
{
    if !has_image(s, y) {
        let p = insertion_point(s, y.full_start_date);
        let k = choose|k: int| 0 <= k < s.len() && same_image(#[trigger] s[k], x);
        lemma_insertion_point_bounds(s, y.full_start_date);
        let r = s.insert(p, y);
        if k < p {
            assert(r[k] == s[k]);
        } else {
            assert(r[k + 1] == s[k]);
        }
    }
}

proof fn lemma_insertion_point_bounds(s: Seq<Image>, d: i64)
    ensures
        0 <= insertion_point(s, d) <= s.len(),
    decreases s.len(),
{
    if s.len() > 0 {
        lemma_insertion_point_bounds(s.drop_last(), d);
    }
}

/// After a record is added the catalog has its image.
pub proof fn lemma_insert_has(s: Seq<Image>, y: Image)
    ensures
        has_image(catalog_insert(s, y), y),
{
    if !has_image(s, y) {
        let p = insertion_point(s, y.full_start_date);
        lemma_insertion_point_bounds(s, y.full_start_date);
        assert(catalog_insert(s, y)[p] == y);
    }
}

/// After a merge the catalog has the image of every listed record.
pub proof fn lemma_merged_has_all(c: Seq<Image>, remote: Seq<Image>)
    ensures
        forall|i: int| 0 <= i < remote.len() ==> has_image(merged(c, remote), #[trigger] remote[i]),
    decreases remote.len(),
{
    if remote.len() > 0 {
        let init = remote.drop_last();
        lemma_merged_has_all(c, init);
        lemma_insert_has(merged(c, init), remote.last());
        assert forall|i: int| 0 <= i < remote.len() implies has_image(
            merged(c, remote),
            #[trigger] remote[i],
        ) by {
            if i < remote.len() - 1 {
                assert(remote[i] == init[i]);
                lemma_insert_keeps(merged(c, init), remote[i], remote.last());
            }
        }
    }
}

/// Merging records whose images the catalog already has changes nothing and
/// tracks nothing new.
pub proof fn lemma_merge_known(c: Seq<Image>, remote: Seq<Image>)
    requires
        forall|i: int| 0 <= i < remote.len() ==> has_image(c, #[trigger] remote[i]),
    ensures
        merged(c, remote) == c,
        newly_tracked(c, remote) == Seq::<Seq<char>>::empty(),
    decreases remote.len(),
{
    if remote.len() > 0 {
        let init = remote.drop_last();
        assert forall|i: int| 0 <= i < init.len() implies has_image(c, #[trigger] init[i]) by {
            assert(init[i] == remote[i]);
        }
        lemma_merge_known(c, init);
        assert(has_image(c, remote[remote.len() - 1]));
    }
}

/// Synchronising the same listing a second time changes nothing: the catalog
/// stays as the first run left it and no record is newly tracked.
pub proof fn lemma_sync_twice(c: Seq<Image>, remote: Seq<Image>)
    ensures
        merged(merged(c, remote), remote) == merged(c, remote),
        newly_tracked(merged(c, remote), remote) == Seq::<Seq<char>>::empty(),
{
    lemma_merged_has_all(c, remote);
    lemma_merge_known(merged(c, remote), remote);
}

/// Records that differ only in their times are one image: adding the second
/// after the first leaves the catalog, and its size, as the first left it.
pub proof fn lemma_identity_ignores_times(c: Seq<Image>, a: Image, b: Image)
    requires
        same_image(a, b),
    ensures
        catalog_insert(catalog_insert(c, a), b) == catalog_insert(c, a),
        merged(c, seq![a, b]).len() == merged(c, seq![a]).len(),
{
    let s = catalog_insert(c, a);
    lemma_insert_has(c, a);
    let k = choose|k: int| 0 <= k < s.len() && same_image(#[trigger] s[k], a);
    assert(same_image(s[k], b));
    assert(seq![a, b].drop_last() =~= seq![a]);
    assert(seq![a].drop_last() =~= Seq::<Image>::empty());
    assert(merged(c, Seq::<Image>::empty()) == c);
    assert(merged(c, seq![a]) == catalog_insert(c, a));
    assert(merged(c, seq![a, b]) == catalog_insert(merged(c, seq![a]), b));
}

/// When every listed record's file is already present nothing is scheduled.
pub proof fn lemma_present_files_not_fetched(
    t: Seq<(Seq<char>, Seq<char>)>,
    present: Seq<Seq<char>>,
)
    requires
        forall|i: int| 0 <= i < t.len() ==> present.contains(#[trigger] t[i].1),
    ensures
        pending(t, present) == Seq::<(Seq<char>, Seq<char>)>::empty(),
    decreases t.len(),
{
    if t.len() > 0 {
        let rest = t.drop_first();
        assert(present.contains(t[0].1));
        assert forall|i: int| 0 <= i < rest.len() implies present.contains(#[trigger] rest[i].1) by {
            assert(rest[i] == t[i + 1]);
        }
        lemma_present_files_not_fetched(rest, present);
    }
}

/// When every listed record's file is present, a synchronisation schedules no
/// download, while the records are still merged as always.
pub proof fn lemma_sync_present_no_downloads(
    remote: Seq<Image>,
    size: Resolution,
    ext: Extension,
    present: Seq<Seq<char>>,
)
    requires
        forall|i: int|
            0 <= i < remote.len() ==> ((#[trigger] image_file_name(remote[i], size, ext)) matches Some(
                n,
            ) && present.contains(n)),
    ensures
        pending(targets(remote, size, ext), present) == Seq::<(Seq<char>, Seq<char>)>::empty(),
{
    let t = targets(remote, size, ext);
    assert forall|i: int| 0 <= i < t.len() implies present.contains(#[trigger] t[i].1) by {
        assert(image_file_name(remote[i], size, ext) is Some);
    }
    lemma_present_files_not_fetched(t, present);
}

} // verus!
