//! Where image data lives on disk. Each image owns the directory
//! `<images_path>/img-<id>`, holding the partition table `parttable.bin` and
//! one `p-<n>.pcl` file per partition.
use vstd::prelude::*;
use vstd::string::*;
use crate::text::{push_signed_decimal, push_str, signed_decimal, lemma_signed_decimal_injective, lemma_component_prefix};

verus! {

/// The on-disk store of image data, rooted at `images_path`.
#[derive(Debug)]
pub struct ImageService {
    images_path: String,
}

/// The directory of an image, relative to the store root: `img-<id>`.
pub open spec fn relative_image_dir(image_id: int) -> Seq<char> {
    "img-"@ + signed_decimal(image_id)
}

/// The partition table of an image, relative to the store root.
pub open spec fn relative_table_path(image_id: int) -> Seq<char> {
    relative_image_dir(image_id) + "/parttable.bin"@
}

/// The data file of a partition, relative to the store root.
pub open spec fn relative_partition_path(image_id: int, partition_number: int) -> Seq<char> {
    relative_image_dir(image_id) + "/p-"@ + signed_decimal(partition_number) + ".pcl"@
}

/// `relative` resolved against the store root.
pub open spec fn under(root: Seq<char>, relative: Seq<char>) -> Seq<char> {
    root + "/"@ + relative
}

impl ImageService {
    pub fn new(images_path: String) -> (s: ImageService)
        ensures
            s.root() == images_path@,
    {
        ImageService { images_path }
    }

    /// The store root.
    pub closed spec fn root(&self) -> Seq<char> {
        self.images_path@
    }

    /// The store root.
    pub fn images_path(&self) -> (p: &String)
        ensures
            p@ == self.root(),
    {
        &self.images_path
    }

    /// `<images_path>/img-<id>`: the directory removed by `clear_image_data`.
    pub fn image_dir(&self, image_id: i64) -> (p: String)
        ensures
            p@ == under(self.root(), relative_image_dir(image_id as int)),
    {
        let mut p = self.images_path.clone();
        push_str(&mut p, "/img-");
        push_signed_decimal(&mut p, image_id);
        proof {
            reveal_strlit("/img-");
            reveal_strlit("/");
            reveal_strlit("img-");
        }
        assert(p@ =~= under(self.root(), relative_image_dir(image_id as int)));
        p
    }

    /// `img-<id>/parttable.bin`: the path `save_partition_table` reports back.
    pub fn relative_partition_table_path(&self, image_id: i64) -> (p: String)
        ensures
            p@ == relative_table_path(image_id as int),
    {
        let mut p = String::from_str("img-");
        push_signed_decimal(&mut p, image_id);
        push_str(&mut p, "/parttable.bin");
        assert(p@ =~= relative_table_path(image_id as int));
        p
    }

    /// `<images_path>/img-<id>/parttable.bin`.
    pub fn get_partition_table_path(&self, image_id: i64) -> (p: String)
        ensures
            p@ == under(self.root(), relative_table_path(image_id as int)),
    {
        let mut p = self.image_dir(image_id);
        push_str(&mut p, "/parttable.bin");
        assert(p@ =~= under(self.root(), relative_table_path(image_id as int)));
        p
    }

    /// `<images_path>/img-<id>/p-<partition_number>.pcl`.
    pub fn get_partition_path(&self, image_id: i64, partition_number: i64) -> (p: String)
        ensures
            p@ == under(self.root(), relative_partition_path(image_id as int, partition_number as int)),
    {
        let mut p = self.image_dir(image_id);
        push_str(&mut p, "/p-");
        push_signed_decimal(&mut p, partition_number);
        push_str(&mut p, ".pcl");
        assert(p@ =~= under(self.root(), relative_partition_path(image_id as int, partition_number as int)));
        p
    }
}

/// The directories of two different images are disjoint: no path inside the
/// directory of image `b` lies inside the directory of image `a`, so removing
/// one image's directory never touches another image's data, even when one id
/// is a textual prefix of the other (`img-1` and `img-10`).
pub proof fn lemma_image_dirs_are_disjoint(root: Seq<char>, a: int, b: int, rest: Seq<char>)
    requires
        a != b,
    ensures
        !(under(root, relative_image_dir(a)) + "/"@).is_prefix_of(
            under(root, relative_image_dir(b)) + "/"@ + rest,
        ),
{
    reveal_strlit("/");
    reveal_strlit("img-");
    let head = root + "/"@ + "img-"@;
    let x = signed_decimal(a);
    let y = signed_decimal(b);
    let p = under(root, relative_image_dir(a)) + "/"@;
    let w = under(root, relative_image_dir(b)) + "/"@ + rest;
    assert(p =~= head + (x + seq!['/']));
    assert(w =~= head + (y + seq!['/'] + rest));
    lemma_signed_decimal_injective(a, b);
    lemma_signed_decimal_injective(b, a);
    if p.is_prefix_of(w) {
        let tail = y + seq!['/'] + rest;
        assert(tail.subrange(0, x.len() + 1 as int) =~= w.subrange(head.len() as int, p.len() as int));
        assert(w.subrange(head.len() as int, p.len() as int) =~= p.subrange(head.len() as int, p.len() as int));
        assert(p.subrange(head.len() as int, p.len() as int) =~= x + seq!['/']);
        lemma_component_prefix(x, y, rest);
    }
}

} // verus!
