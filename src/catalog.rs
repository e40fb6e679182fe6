//! The catalog: image records without two of the same image, kept in
//! ascending order of start time.
use vstd::prelude::*;

use crate::image::{same_image, Image};

verus! {

/// Whether some record of `s` names the same image as `img`.
pub open spec fn has_image(s: Seq<Image>, img: Image) -> bool {
    exists|i: int| 0 <= i < s.len() && same_image(#[trigger] s[i], img)
}

/// Start times never decrease along `s`.
pub open spec fn sorted_by_start(s: Seq<Image>) -> bool {
    forall|i: int, j: int|
        0 <= i < j < s.len() ==> (#[trigger] s[i]).full_start_date <= (#[trigger] s[j]).full_start_date
}

/// No two records of `s` name the same image.
pub open spec fn distinct_images(s: Seq<Image>) -> bool {
    forall|i: int, j: int| 0 <= i < j < s.len() ==> !same_image(#[trigger] s[i], #[trigger] s[j])
}

pub open spec fn catalog_wf(s: Seq<Image>) -> bool {
    sorted_by_start(s) && distinct_images(s)
}

/// Where a record starting at `d` goes: after every record that starts no later.
pub open spec fn insertion_point(s: Seq<Image>, d: i64) -> int
    decreases s.len(),
{
    if s.len() == 0 {
        0
    } else if s.last().full_start_date <= d {
        s.len() as int
    } else {
        insertion_point(s.drop_last(), d)
    }
}

/// Adding a record: nothing changes when the catalog already has the same
/// image (the first record kept wins); otherwise it goes in by start time.
pub open spec fn catalog_insert(s: Seq<Image>, img: Image) -> Seq<Image> {
    if has_image(s, img) {
        s
    } else {
        s.insert(insertion_point(s, img.full_start_date), img)
    }
}

/// The catalog after adding each listed record in turn.
pub open spec fn merged(c: Seq<Image>, remote: Seq<Image>) -> Seq<Image>
    decreases remote.len(),
{
    if remote.len() == 0 {
        c
    } else {
        catalog_insert(merged(c, remote.drop_last()), remote.last())
    }
}

proof fn lemma_insertion_point(s: Seq<Image>, d: i64)
    requires
        sorted_by_start(s),
    ensures
        0 <= insertion_point(s, d) <= s.len(),
        forall|k: int| 0 <= k < insertion_point(s, d) ==> (#[trigger] s[k]).full_start_date <= d,
        forall|k: int|
            insertion_point(s, d) <= k < s.len() ==> (#[trigger] s[k]).full_start_date > d,
    decreases s.len(),
{
    if s.len() > 0 {
        if s.last().full_start_date > d {
            let t = s.drop_last();
            assert(sorted_by_start(t));
            lemma_insertion_point(t, d);
            assert forall|k: int| insertion_point(s, d) <= k < s.len() implies (
            #[trigger] s[k]).full_start_date > d by {
                if k < s.len() - 1 {
                    assert(s[k] == t[k]);
                }
            }
            assert forall|k: int| 0 <= k < insertion_point(s, d) implies (
            #[trigger] s[k]).full_start_date <= d by {
                assert(s[k] == t[k]);
            }
        } else {
            assert forall|k: int| 0 <= k < insertion_point(s, d) implies (
            #[trigger] s[k]).full_start_date <= d by {
                if k < s.len() - 1 {
                    assert(s[k].full_start_date <= s[s.len() - 1].full_start_date);
                }
            }
        }
    }
}

/// Inserting keeps a catalog well formed.
pub proof fn lemma_insert_wf(s: Seq<Image>, img: Image)
    requires
        catalog_wf(s),
    ensures
        catalog_wf(catalog_insert(s, img)),
{
    if !has_image(s, img) {
        let p = insertion_point(s, img.full_start_date);
        lemma_insertion_point(s, img.full_start_date);
        let r = s.insert(p, img);
        assert forall|i: int, j: int| 0 <= i < j < r.len() implies (#[trigger] r[i]).full_start_date
            <= (#[trigger] r[j]).full_start_date by {
            if i < p && j < p {
            } else if i < p && j == p {
            } else if i < p {
                assert(r[j] == s[j - 1]);
            } else if i == p {
                assert(r[j] == s[j - 1]);
            } else {
                assert(r[i] == s[i - 1]);
                assert(r[j] == s[j - 1]);
            }
        }
        assert forall|i: int, j: int| 0 <= i < j < r.len() implies !same_image(
            #[trigger] r[i],
            #[trigger] r[j],
        ) by {
            if i < p && j < p {
            } else if i < p && j == p {
                assert(!same_image(s[i], img));
            } else if i < p {
                assert(r[j] == s[j - 1]);
            } else if i == p {
                assert(r[j] == s[j - 1]);
                assert(!same_image(s[j - 1], img));
                assert(same_image(r[i], r[j]) ==> same_image(s[j - 1], img));
            } else {
                assert(r[i] == s[i - 1]);
                assert(r[j] == s[j - 1]);
            }
        }
    }
}

/// The catalog of known images.
#[derive(Debug)]
pub struct ImageData {
    images: Vec<Image>,
}

impl View for ImageData {
    type V = Seq<Image>;

    closed spec fn view(&self) -> Seq<Image> {
        self.images@
    }
}

impl ImageData {
    /// Well formed: ordered by start time, no image twice.
    pub open spec fn wf(&self) -> bool {
        catalog_wf(self@)
    }

    /// An empty catalog.
    pub fn new() -> (r: ImageData)
        ensures
            r@ == Seq::<Image>::empty(),
            r.wf(),
    {
        ImageData { images: Vec::new() }
    }

    /// The records, in ascending order of start time.
    pub fn images(&self) -> (r: &Vec<Image>)
        ensures
            r@ == self@,
    {
        &self.images
    }

    pub fn len(&self) -> (r: usize)
        ensures
            r == self@.len(),
    {
        self.images.len()
    }

    pub fn is_empty(&self) -> (r: bool)
        ensures
            r == (self@.len() == 0),
    {
        self.images.len() == 0
    }

    /// Whether the catalog has a record of the same image as `img`.
    pub fn contains(&self, img: &Image) -> (r: bool)
        ensures
            r == has_image(self@, *img),
    {
        let mut i: usize = 0;
        while i < self.images.len()
            invariant
                i <= self.images@.len(),
                forall|k: int| 0 <= k < i ==> !same_image(#[trigger] self.images@[k], *img),
            decreases self.images@.len() - i,
        {
            if self.images[i].same_identity(img) {
                return true;
            }
            i = i + 1;
        }
        false
    }

    /// A catalog of the given records, each added in turn.
    pub fn from_images(records: Vec<Image>) -> (r: ImageData)
        ensures
            r.wf(),
            r@ == merged(Seq::<Image>::empty(), records@),
    {
        let mut r = ImageData::new();
        let mut i: usize = 0;
        while i < records.len()
            invariant
                i <= records@.len(),
                r.wf(),
                r@ == merged(Seq::<Image>::empty(), records@.subrange(0, i as int)),
            decreases records@.len() - i,
        {
            assert(records@.subrange(0, i + 1).drop_last() =~= records@.subrange(0, i as int));
            r.insert(records[i].clone());
            i = i + 1;
        }
        assert(records@.subrange(0, i as int) =~= records@);
        r
    }

    /// Adds `img` unless the catalog already has the same image; returns
    /// whether it was added.
    pub fn insert(&mut self, img: Image) -> (r: bool)
        requires
            old(self).wf(),
        ensures
            final(self).wf(),
            r == !has_image(old(self)@, img),
            final(self)@ == catalog_insert(old(self)@, img),
    {
        if self.contains(&img) {
            return false;
        }
        let ghost s = self.images@;
        let d = img.full_start_date;
        let mut i: usize = self.images.len();
        assert(s.subrange(0, i as int) =~= s);
        while i > 0 && self.images[i - 1].full_start_date > d
            invariant
                i <= s.len(),
                self.images@ == s,
                insertion_point(s, d) == insertion_point(s.subrange(0, i as int), d),
            decreases i,
        {
            let ghost t = s.subrange(0, i as int);
            assert(t.drop_last() =~= s.subrange(0, i - 1));
            i = i - 1;
        }
        assert(insertion_point(s.subrange(0, i as int), d) == i);
        proof {
            lemma_insert_wf(s, img);
        }
        self.images.insert(i, img);
        true
    }
}

} // verus!
