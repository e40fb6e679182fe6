//! The persisted state: the catalog and which image is current, and the
//! choice of a new current image.
use vstd::prelude::*;

use crate::catalog::ImageData;
use crate::config::{opt_text, Config};
use crate::image::{image_file_name, Image};
use crate::opt::{Extension, Resolution};
use crate::sync::all_named;
use rand::seq::SliceRandom;

verus! {

/// Largest catalog a selection accepts; it keeps the weights' total in 64 bits.
pub const MAX_CATALOG_LEN: usize = 0xffff_ffff;

/// Sum of the weights.
pub open spec fn total(w: Seq<u64>) -> int
    decreases w.len(),
{
    if w.len() == 0 {
        0
    } else {
        total(w.drop_last()) + w.last()
    }
}

/// Relies on rand's `SliceRandom::choose_weighted` over the thread-local
/// generator: the index of an item drawn with probability proportional to its
/// weight. It fails only on an empty list or when every weight is zero.
#[verifier::external_body]
fn choose_weighted_index(weights: &Vec<u64>) -> (r: Option<usize>)
    requires
        total(weights@) <= u64::MAX,
    ensures
        r is Some <==> (weights@.len() > 0 && total(weights@) > 0),
        r matches Some(i) ==> i < weights@.len(),
{
    let indexed: Vec<(usize, u64)> = weights.iter().copied().enumerate().collect();
    indexed.choose_weighted(&mut rand::thread_rng(), |p| p.1).ok().map(|p| p.0)
}

/// File names of the records.
pub open spec fn catalog_names(imgs: Seq<Image>, size: Resolution, ext: Extension) -> Seq<
    Seq<char>,
> {
    imgs.map_values(|img: Image| image_file_name(img, size, ext).unwrap())
}

/// `names` without any that equal `c`, order kept.
pub open spec fn without(names: Seq<Seq<char>>, c: Seq<char>) -> Seq<Seq<char>>
    decreases names.len(),
{
    if names.len() == 0 {
        Seq::empty()
    } else if names.last() == c {
        without(names.drop_last(), c)
    } else {
        without(names.drop_last(), c).push(names.last())
    }
}

/// The names a selection draws from: all but the current one, or all of
/// them when nothing else is left.
pub open spec fn candidates(names: Seq<Seq<char>>, current: Option<Seq<char>>) -> Seq<Seq<char>> {
    match current {
        Some(c) => if without(names, c).len() == 0 {
            names
        } else {
            without(names, c)
        },
        None => names,
    }
}

proof fn lemma_without(names: Seq<Seq<char>>, c: Seq<char>)
    ensures
        forall|i: int| 0 <= i < without(names, c).len() ==> #[trigger] without(names, c)[i] != c,
        (exists|i: int| 0 <= i < names.len() && names[i] != c) ==> without(names, c).len() > 0,
        forall|i: int|
            0 <= i < without(names, c).len() ==> names.contains(#[trigger] without(names, c)[i]),
    decreases names.len(),
{
    if names.len() > 0 {
        let init = names.drop_last();
        lemma_without(init, c);
        if exists|i: int| 0 <= i < names.len() && names[i] != c {
            let i = choose|i: int| 0 <= i < names.len() && names[i] != c;
            if i < names.len() - 1 {
                assert(init[i] == names[i]);
            }
        }
        assert forall|i: int| 0 <= i < without(names, c).len() implies names.contains(
            #[trigger] without(names, c)[i],
        ) by {
            let w = without(init, c);
            if i < w.len() {
                let j = choose|j: int| 0 <= j < init.len() && init[j] == w[i];
                assert(names[j] == init[j]);
            } else {
                assert(names[names.len() - 1] == names.last());
            }
        }
    }
}

/// Why no image could be chosen.
#[derive(Debug, Clone, Copy, PartialEq, Eq, Structural)]
pub enum SelectError {
    /// The catalog is empty: synchronise first.
    NoImages,
    /// A record's download URL carries no `id` to name its file by.
    MissingImageId,
}

/// The catalog and the file name of the current image, saved as one document.
#[derive(Debug)]
pub struct AppState {
    pub image_data: ImageData,
    pub current_image: Option<String>,
}

impl Default for AppState {
    fn default() -> (r: AppState)
        ensures
            r.image_data@ == Seq::<Image>::empty(),
            r.image_data.wf(),
            r.current_image is None,
    {
        AppState { image_data: ImageData::new(), current_image: None }
    }
}

impl AppState {
    /// Draws the file name of a new current image. Records are weighted by
    /// their position among the candidates, counted from 1 in ascending order
    /// of start time, so later images are likelier. The current image is left
    /// out unless it is all there is. Neither the catalog nor the current
    /// image changes.
    pub fn get_random_image(&self, config: &Config) -> (r: Result<String, SelectError>)
        requires
            self.image_data@.len() <= MAX_CATALOG_LEN,
        ensures
            self.image_data@.len() == 0 ==> r == Err::<String, SelectError>(SelectError::NoImages),
            self.image_data@.len() > 0 && !all_named(self.image_data@, config.size, config.ext)
                ==> r == Err::<String, SelectError>(SelectError::MissingImageId),
            self.image_data@.len() > 0 && all_named(self.image_data@, config.size, config.ext)
                ==> (r matches Ok(n) && candidates(
                catalog_names(self.image_data@, config.size, config.ext),
                opt_text(self.current_image),
            ).contains(n@)),
            // Never the current image while another one exists.
            r matches Ok(n) ==> (self.current_image matches Some(c) ==> ((exists|i: int|
                0 <= i < self.image_data@.len() && image_file_name(
                    #[trigger] self.image_data@[i],
                    config.size,
                    config.ext,
                ) != Some(c@)) ==> n@ != c@)),
            // The chosen name is that of a record.
            r matches Ok(n) ==> exists|i: int|
                0 <= i < self.image_data@.len() && image_file_name(
                    #[trigger] self.image_data@[i],
                    config.size,
                    config.ext,
                ) == Some(n@),
            // A single record is chosen whatever the current image is.
            self.image_data@.len() == 1 && all_named(self.image_data@, config.size, config.ext)
                ==> (r matches Ok(n) && Some(n@) == image_file_name(
                self.image_data@[0],
                config.size,
                config.ext,
            )),
    {
        let images = self.image_data.images();
        let ghost size = config.size;
        let ghost ext = config.ext;
        let ghost names_spec = catalog_names(images@, size, ext);
        if images.len() == 0 {
            return Err(SelectError::NoImages);
        }
        let mut names: Vec<String> = Vec::new();
        let mut i: usize = 0;
        while i < images.len()
            invariant
                i <= images@.len(),
                images@ == self.image_data@,
                size == config.size,
                ext == config.ext,
                names@.len() == i,
                forall|k: int|
                    0 <= k < i ==> image_file_name(images@[k], size, ext) == Some(
                        (#[trigger] names@[k])@,
                    ),
            decreases images@.len() - i,
        {
            let fname = images[i].file_name(config);
            assert(opt_text(fname) == image_file_name(images@[i as int], size, ext));
            match fname {
                Some(n) => names.push(n),
                None => return Err(SelectError::MissingImageId),
            }
            i = i + 1;
        }
        assert forall|k: int| 0 <= k < images@.len() implies (#[trigger] image_file_name(
            images@[k],
            size,
            ext,
        )) is Some by {
            assert(image_file_name(images@[k], size, ext) == Some(names@[k]@));
        }
        let ghost nv = names@.map_values(|s: String| s@);
        assert(nv =~= names_spec) by {
            assert forall|k: int| 0 <= k < nv.len() implies nv[k] == names_spec[k] by {
                assert(image_file_name(images@[k], size, ext) == Some(names@[k]@));
            }
        }

        // Candidates: every name but the current one.
        let mut others: Vec<String> = Vec::new();
        let mut i: usize = 0;
        while i < names.len()
            invariant
                i <= names@.len(),
                nv == names@.map_values(|s: String| s@),
                match self.current_image {
                    Some(c) => others@.map_values(|s: String| s@) == without(
                        nv.subrange(0, i as int),
                        c@,
                    ),
                    None => others@.map_values(|s: String| s@) == nv.subrange(0, i as int),
                },
            decreases names@.len() - i,
        {
            let ghost before = others@.map_values(|s: String| s@);
            let ghost pre = nv.subrange(0, i + 1);
            assert(pre.drop_last() =~= nv.subrange(0, i as int));
            assert(pre.last() == names@[i as int]@);
            let keep = match &self.current_image {
                Some(c) => names[i] != *c,
                None => true,
            };
            if keep {
                others.push(names[i].clone());
                assert(others@.map_values(|s: String| s@) =~= before.push(names@[i as int]@));
            } else {
                assert(others@.map_values(|s: String| s@) =~= before);
            }
            i = i + 1;
        }
        assert(nv.subrange(0, i as int) =~= nv);
        let ghost cand_spec = candidates(names_spec, opt_text(self.current_image));
        let cands = if others.len() == 0 {
            names
        } else {
            others
        };
        assert(cands@.map_values(|s: String| s@) == cand_spec);
        assert(cands@.len() > 0);
        assert(cands@.len() <= MAX_CATALOG_LEN) by {
            assert(cands@.map_values(|s: String| s@).len() == cands@.len());
            match self.current_image {
                Some(c) => {
                    lemma_without_len(nv, c@);
                },
                None => {},
            }
        }

        // Weights 1, 2, ... in candidate order.
        let n = cands.len();
        let mut weights: Vec<u64> = Vec::new();
        let mut i: usize = 0;
        while i < n
            invariant
                i <= n,
                n <= MAX_CATALOG_LEN,
                weights@.len() == i,
                forall|k: int| 0 <= k < i ==> (#[trigger] weights@[k]) >= 1,
                total(weights@) <= i * 0xffff_ffff,
            decreases n - i,
        {
            let ghost before = weights@;
            weights.push((i as u64) + 1);
            assert(weights@.drop_last() =~= before);
            i = i + 1;
        }
        assert(total(weights@) <= u64::MAX) by {
            assert(n * 0xffff_ffff <= 0xffff_ffff * 0xffff_ffff) by (nonlinear_arith)
                requires
                    n <= 0xffff_ffff,
            ;
        }
        proof {
            lemma_total_positive(weights@);
        }
        let pick = choose_weighted_index(&weights);
        let k = pick.unwrap();
        let chosen = cands[k].clone();
        proof {
            let cv = cands@.map_values(|s: String| s@);
            assert(cv[k as int] == chosen@);
            lemma_select_facts(names_spec, opt_text(self.current_image));
            assert(cand_spec.contains(chosen@));
            assert(names_spec.contains(chosen@));
            let j = choose|j: int| 0 <= j < names_spec.len() && names_spec[j] == chosen@;
            assert(image_file_name(images@[j], size, ext) == Some(names@[j]@));
            match &self.current_image {
                Some(c) => {
                    if exists|i: int|
                        0 <= i < images@.len() && image_file_name(
                            #[trigger] images@[i],
                            size,
                            ext,
                        ) != Some(c@) {
                        let i = choose|i: int|
                            0 <= i < images@.len() && image_file_name(
                                #[trigger] images@[i],
                                size,
                                ext,
                            ) != Some(c@);
                        assert(image_file_name(images@[i], size, ext) == Some(names@[i]@));
                        assert(names_spec[i] != c@);
                    }
                },
                None => {},
            }
        }
        Ok(chosen)
    }
}

proof fn lemma_without_len(names: Seq<Seq<char>>, c: Seq<char>)
    ensures
        without(names, c).len() <= names.len(),
    decreases names.len(),
{
    if names.len() > 0 {
        lemma_without_len(names.drop_last(), c);
    }
}

proof fn lemma_total_positive(w: Seq<u64>)
    requires
        w.len() > 0,
        forall|k: int| 0 <= k < w.len() ==> (#[trigger] w[k]) >= 1,
    ensures
        total(w) > 0,
    decreases w.len(),
{
    let init = w.drop_last();
    assert(w.last() == w[w.len() - 1]);
    if w.len() > 1 {
        assert forall|k: int| 0 <= k < init.len() implies (#[trigger] init[k]) >= 1 by {
            assert(init[k] == w[k]);
        }
        lemma_total_positive(init);
    } else {
        lemma_total_nonneg(init);
    }
}

proof fn lemma_total_nonneg(w: Seq<u64>)
    ensures
        total(w) >= 0,
    decreases w.len(),
{
    if w.len() > 0 {
        lemma_total_nonneg(w.drop_last());
    }
}

/// What the candidates are: never the current name while another exists,
/// and the one name of a single-record catalog.
proof fn lemma_select_facts(names: Seq<Seq<char>>, current: Option<Seq<char>>)
    ensures
        forall|x: Seq<char>|
            #![trigger candidates(names, current).contains(x)]
            candidates(names, current).contains(x) ==> (current matches Some(c) ==> ((exists|i: int|
                0 <= i < names.len() && names[i] != c) ==> x != c)),
        forall|x: Seq<char>|
            #![trigger candidates(names, current).contains(x)]
            candidates(names, current).contains(x) && names.len() == 1 ==> x == names[0],
        forall|x: Seq<char>|
            #![trigger candidates(names, current).contains(x)]
            candidates(names, current).contains(x) ==> names.contains(x),
{
    match current {
        Some(c) => {
            lemma_without(names, c);
            assert forall|x: Seq<char>|
                #![trigger candidates(names, current).contains(x)]
                candidates(names, current).contains(x) && names.len() == 1 implies x
                == names[0] by {
                if without(names, c).len() > 0 {
                    let j = choose|j: int|
                        0 <= j < without(names, c).len() && without(names, c)[j] == x;
                    assert(names.contains(without(names, c)[j]));
                }
            }
            assert forall|x: Seq<char>|
                #![trigger candidates(names, current).contains(x)]
                candidates(names, current).contains(x) implies names.contains(x) by {
                if without(names, c).len() > 0 {
                    let j = choose|j: int|
                        0 <= j < without(names, c).len() && without(names, c)[j] == x;
                    assert(names.contains(without(names, c)[j]));
                }
            }
        },
        None => {},
    }
}

} // verus!
