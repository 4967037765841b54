//! Images: a captured disk, its status and its partitions.
use vstd::prelude::*;
use vstd::string::*;
use crate::shared::error::{AppError, AppErrorView};
use crate::domain::task::conversion_error;
use crate::text::{to_lowercase, unicode_lowercase, all_ascii, ascii_lowercase};
use crate::timestamp::Timestamp;
use std::collections::HashMap;

verus! {

broadcast use vstd::std_specs::hash::group_hash_axioms;

/// The lifecycle status of an image.
#[derive(Debug, Clone, Copy, PartialEq, Eq, Structural)]
pub enum ImageStatus {
    Empty,
    Capturing,
    Ready,
    Faulted,
}

/// The lowercase name an image status is displayed and stored as.
pub open spec fn image_status_name(s: ImageStatus) -> Seq<char> {
    match s {
        ImageStatus::Empty => "empty"@,
        ImageStatus::Capturing => "capturing"@,
        ImageStatus::Ready => "ready"@,
        ImageStatus::Faulted => "faulted"@,
    }
}

/// The image status whose lowercase name is exactly `s`, if any.
pub open spec fn image_status_named(s: Seq<char>) -> Option<ImageStatus> {
    if s == "empty"@ {
        Some(ImageStatus::Empty)
    } else if s == "capturing"@ {
        Some(ImageStatus::Capturing)
    } else if s == "ready"@ {
        Some(ImageStatus::Ready)
    } else if s == "faulted"@ {
        Some(ImageStatus::Faulted)
    } else {
        None
    }
}

fn is(s: &String, lit: &str) -> (b: bool)
    ensures
        b == (s@ == lit@),
{
    *s == String::from_str(lit)
}

impl ImageStatus {
    /// Renders the lowercase name, e.g. `capturing`.
    pub fn to_string(&self) -> (s: String)
        ensures
            s@ == image_status_name(*self),
    {
        match self {
            ImageStatus::Empty => String::from_str("empty"),
            ImageStatus::Capturing => String::from_str("capturing"),
            ImageStatus::Ready => String::from_str("ready"),
            ImageStatus::Faulted => String::from_str("faulted"),
        }
    }

    /// Looks an image status up by its already lowercased name.
    pub fn from_lowercase(lower: &String) -> (r: Result<ImageStatus, AppError>)
        ensures
            match r {
                Ok(s) => image_status_named(lower@) == Some(s),
                Err(e) => image_status_named(lower@) is None && e@ == conversion_error(),
            },
    {
        if is(lower, "empty") {
            Ok(ImageStatus::Empty)
        } else if is(lower, "capturing") {
            Ok(ImageStatus::Capturing)
        } else if is(lower, "ready") {
            Ok(ImageStatus::Ready)
        } else if is(lower, "faulted") {
            Ok(ImageStatus::Faulted)
        } else {
            Err(AppError::Internal(String::from_str("conversion error")))
        }
    }

    /// Parses an image status by name, ignoring case. An unknown name is an
    /// `Internal("conversion error")`.
    pub fn from_string(value: String) -> (r: Result<ImageStatus, AppError>)
        ensures
            match r {
                Ok(s) => image_status_named(unicode_lowercase(value@)) == Some(s),
                Err(e) => image_status_named(unicode_lowercase(value@)) is None
                    && e@ == conversion_error(),
            },
            all_ascii(value@) ==> unicode_lowercase(value@) == ascii_lowercase(value@),
    {
        let lower = to_lowercase(value.as_str());
        ImageStatus::from_lowercase(&lower)
    }

    pub fn is_empty(&self) -> (b: bool)
        ensures
            b == (*self is Empty),
    {
        matches!(self, ImageStatus::Empty)
    }

    pub fn is_capturing(&self) -> (b: bool)
        ensures
            b == (*self is Capturing),
    {
        matches!(self, ImageStatus::Capturing)
    }

    pub fn is_ready(&self) -> (b: bool)
        ensures
            b == (*self is Ready),
    {
        matches!(self, ImageStatus::Ready)
    }

    pub fn is_faulted(&self) -> (b: bool)
        ensures
            b == (*self is Faulted),
    {
        matches!(self, ImageStatus::Faulted)
    }
}

/// One captured partition of an image.
#[derive(Debug)]
pub struct ImagePartition {
    pub id: i64,
    pub partition_number: i64,
    pub fstype: String,
    pub size_bytes: u64,
}

impl ImagePartition {
    pub fn new(id: i64, partition_number: i64, fstype: String, size_bytes: u64) -> (p: ImagePartition)
        ensures
            p.id == id,
            p.partition_number == partition_number,
            p.fstype == fstype,
            p.size_bytes == size_bytes,
    {
        ImagePartition { id, partition_number, fstype, size_bytes }
    }

    /// A partition from its stored row. Sizes are stored as signed 64-bit
    /// integers; they are reinterpreted bit for bit as unsigned.
    pub fn from_row(id: i64, partition_number: i64, fstype: String, size_bytes: i64) -> (p: ImagePartition)
        ensures
            p.id == id,
            p.partition_number == partition_number,
            p.fstype == fstype,
            p.size_bytes == size_bytes as u64,
    {
        ImagePartition { id, partition_number, fstype, size_bytes: size_bytes as u64 }
    }
}

/// An image with its partitions.
#[derive(Debug)]
pub struct Image {
    pub id: i64,
    pub name: String,
    pub captured_at: Option<Timestamp>,
    pub status: ImageStatus,
    pub error: Option<String>,
    pub partitions: Vec<ImagePartition>,
}

impl Image {
    pub fn new(
        id: i64,
        name: String,
        captured_at: Option<Timestamp>,
        status: ImageStatus,
        error: Option<String>,
        partitions: Vec<ImagePartition>,
    ) -> (i: Image)
        ensures
            i.id == id,
            i.name == name,
            i.captured_at == captured_at,
            i.status == status,
            i.error == error,
            i.partitions == partitions,
    {
        Image { id, name, captured_at, status, error, partitions }
    }
}


impl View for ImagePartition {
    type V = (i64, i64, Seq<char>, u64);

    /// The partition's id, number, filesystem type and size.
    open spec fn view(&self) -> (i64, i64, Seq<char>, u64) {
        (self.id, self.partition_number, self.fstype@, self.size_bytes)
    }
}

impl Image {
    /// An image from its stored row: the status is parsed by name, ignoring
    /// case; an unknown name is an `Internal("conversion error")`.
    pub fn from_row(
        id: i64,
        name: String,
        captured_at: Option<Timestamp>,
        status: String,
        error: Option<String>,
        partitions: Vec<ImagePartition>,
    ) -> (r: Result<Image, AppError>)
        ensures
            match r {
                Ok(i) => {
                    &&& image_status_named(unicode_lowercase(status@)) == Some(i.status)
                    &&& i.id == id
                    &&& i.name == name
                    &&& i.captured_at == captured_at
                    &&& i.error == error
                    &&& i.partitions == partitions
                },
                Err(e) => image_status_named(unicode_lowercase(status@)) is None
                    && e@ == conversion_error(),
            },
    {
        let status = ImageStatus::from_string(status)?;
        Ok(Image { id, name, captured_at, status, error, partitions })
    }
}

/// One row of the join of images with their partitions: the image's columns,
/// and the partition's columns, which are all present when the image has a
/// partition on this row.
#[derive(Debug)]
pub struct ImageRow {
    pub image_id: i64,
    pub image_name: String,
    pub image_status: String,
    pub error: Option<String>,
    pub captured_at: Option<Timestamp>,
    pub p_id: Option<i64>,
    pub p_num: Option<i64>,
    pub p_fstype: Option<String>,
    pub p_size: Option<i64>,
}

/// The partition a row carries: present when all four partition columns are;
/// its size is the stored signed size reinterpreted as unsigned.
pub open spec fn row_partition(r: ImageRow) -> Option<(i64, i64, Seq<char>, u64)> {
    match (r.p_id, r.p_num, r.p_fstype, r.p_size) {
        (Some(id), Some(num), Some(fstype), Some(size)) => Some((id, num, fstype@, size as u64)),
        _ => None,
    }
}

/// The partitions the rows give the image `id`, in row order.
pub open spec fn partitions_of(rows: Seq<ImageRow>, id: i64) -> Seq<(i64, i64, Seq<char>, u64)> {
    rows.filter_map(|r: ImageRow| if r.image_id == id { row_partition(r) } else { None })
}

/// The distinct image ids of the rows, in the order they first appear.
pub open spec fn image_ids(rows: Seq<ImageRow>) -> Seq<i64>
    decreases rows.len(),
{
    if rows.len() == 0 {
        Seq::empty()
    } else {
        let ids = image_ids(rows.drop_last());
        if ids.contains(rows.last().image_id) {
            ids
        } else {
            ids.push(rows.last().image_id)
        }
    }
}

/// Row `k` is the first row of its image.
pub open spec fn first_of_its_image(rows: Seq<ImageRow>, k: int) -> bool {
    &&& 0 <= k < rows.len()
    &&& forall|m: int| 0 <= m < k ==> rows[m].image_id != rows[k].image_id
}

/// The status column of row `r` names no image status.
pub open spec fn status_unparsed(r: ImageRow) -> bool {
    image_status_named(unicode_lowercase(r.image_status@)) is None
}

/// Some image's first row has a status that names no image status.
pub open spec fn some_status_unparsed(rows: Seq<ImageRow>) -> bool {
    exists|k: int| first_of_its_image(rows, k) && status_unparsed(#[trigger] rows[k])
}

/// `img` carries the columns of row `row`: its id, name, capture time and
/// error, and the status the row's status column names.
pub open spec fn carries_row(img: Image, row: ImageRow) -> bool {
    &&& img.id == row.image_id
    &&& img.name == row.image_name
    &&& img.captured_at == row.captured_at
    &&& img.error == row.error
    &&& image_status_named(unicode_lowercase(row.image_status@)) == Some(img.status)
}

/// `img` carries the columns of its image's first row, which is before row `i`.
spec fn carried_before(img: Image, rows: Seq<ImageRow>, i: int) -> bool {
    exists|k: int| 0 <= k < i && first_of_its_image(rows, k) && rows[k].image_id == img.id
        && carries_row(img, #[trigger] rows[k])
}

/// `img` is what the rows say of its image: the columns of the image's first
/// row, and the partitions of all its rows.
pub open spec fn grouped_from(img: Image, rows: Seq<ImageRow>) -> bool {
    &&& exists|k: int| first_of_its_image(rows, k) && rows[k].image_id == img.id
        && carries_row(img, #[trigger] rows[k])
    &&& img.partitions@.map_values(|p: ImagePartition| p@) == partitions_of(rows, img.id)
}

proof fn lemma_image_ids_step(rows: Seq<ImageRow>, i: int)
    requires
        0 <= i < rows.len(),
    ensures
        image_ids(rows.take(i + 1)) == (if image_ids(rows.take(i)).contains(rows[i].image_id) {
            image_ids(rows.take(i))
        } else {
            image_ids(rows.take(i)).push(rows[i].image_id)
        }),
{
    assert(rows.take(i + 1).drop_last() =~= rows.take(i));
}

/// The images gathered from the rows are exactly the images the rows name,
/// each once: an id is among `image_ids(rows)` if and only if some row has
/// it, and no id is listed twice.
pub proof fn lemma_image_ids_members(rows: Seq<ImageRow>)
    ensures
        forall|x: i64| image_ids(rows).contains(x) <==> ids_among(rows, x),
        forall|a: int, b: int| 0 <= a < b < image_ids(rows).len()
            ==> image_ids(rows)[a] != image_ids(rows)[b],
    decreases rows.len(),
{
    if rows.len() > 0 {
        let front = rows.drop_last();
        let last = rows.len() - 1;
        lemma_image_ids_members(front);
        assert forall|x: i64| image_ids(rows).contains(x) implies ids_among(rows, x) by {
            if image_ids(front).contains(x) {
                assert(ids_among(front, x));
                let k = choose|k: int| 0 <= k < front.len() && #[trigger] front[k].image_id == x;
                assert(rows[k].image_id == x);
            } else {
                assert(rows[last].image_id == x);
            }
        }
        assert forall|x: i64| ids_among(rows, x) implies image_ids(rows).contains(x) by {
            let k = choose|k: int| 0 <= k < rows.len() && #[trigger] rows[k].image_id == x;
            if k < last {
                assert(front[k].image_id == x);
                assert(ids_among(front, x));
                let q = image_ids(front).index_of(x);
                assert(image_ids(rows)[q] == x);
            } else if image_ids(front).contains(x) {
                let q = image_ids(front).index_of(x);
                assert(image_ids(rows)[q] == x);
            } else {
                assert(image_ids(rows)[image_ids(front).len() as int] == x);
            }
        }
    }
}

/// Some row has the image id `x`.
pub open spec fn ids_among(rows: Seq<ImageRow>, x: i64) -> bool {
    exists|k: int| 0 <= k < rows.len() && #[trigger] rows[k].image_id == x
}

/// A row whose id is not among the ids of the rows before it is the first of
/// its image.
proof fn lemma_fresh_row_is_first(rows: Seq<ImageRow>, i: int)
    requires
        0 <= i < rows.len(),
        !image_ids(rows.take(i)).contains(rows[i].image_id),
    ensures
        first_of_its_image(rows, i),
{
    lemma_image_ids_members(rows.take(i));
    assert forall|m: int| 0 <= m < i implies rows[m].image_id != rows[i].image_id by {
        assert(rows.take(i)[m] == rows[m]);
        if rows[m].image_id == rows[i].image_id {
            assert(ids_among(rows.take(i), rows[i].image_id));
        }
    }
}

proof fn lemma_no_partitions(rows: Seq<ImageRow>, id: i64)
    requires
        forall|k: int| 0 <= k < rows.len() ==> (#[trigger] rows[k]).image_id != id,
    ensures
        partitions_of(rows, id) == Seq::<(i64, i64, Seq<char>, u64)>::empty(),
    decreases rows.len(),
{
    if rows.len() > 0 {
        let front = rows.drop_last();
        assert forall|k: int| 0 <= k < front.len() implies (#[trigger] front[k]).image_id != id by {
            assert(front[k] == rows[k]);
        }
        lemma_no_partitions(front, id);
        assert(rows.last().image_id != id);
    }
}

proof fn lemma_partitions_step(rows: Seq<ImageRow>, i: int, id: i64)
    requires
        0 <= i < rows.len(),
    ensures
        partitions_of(rows.take(i + 1), id) == partitions_of(rows.take(i), id) + (
        if rows[i].image_id == id && row_partition(rows[i]) is Some {
            seq![row_partition(rows[i])->0]
        } else {
            Seq::empty()
        }),
{
    let f = |r: ImageRow| if r.image_id == id { row_partition(r) } else { None };
    rows.lemma_filter_map_take_succ(f, i);
}

/// The images gathered from the rows before row `i`: their ids are those
/// rows' distinct ids in order, each carries the columns of its first row,
/// and every first row so far has a status that parses.
spec fn headers_before(images: Seq<Image>, rows: Seq<ImageRow>, i: int) -> bool {
    &&& images.map_values(|im: Image| im.id) == image_ids(rows.take(i))
    &&& forall|j: int| 0 <= j < images.len() ==> #[trigger] carried_before(images[j], rows, i)
    &&& forall|k: int| 0 <= k < i && first_of_its_image(rows, k) ==> !status_unparsed(#[trigger] rows[k])
}

/// Each image holds the partitions of its rows before row `i`.
spec fn partitions_before(images: Seq<Image>, rows: Seq<ImageRow>, i: int) -> bool {
    forall|j: int| 0 <= j < images.len() ==> (#[trigger] images[j]).partitions@.map_values(
        |p: ImagePartition| p@) == partitions_of(rows.take(i), images[j].id)
}

/// `index` maps the id of every gathered image to its position.
spec fn indexes(index: Map<i64, usize>, images: Seq<Image>) -> bool {
    &&& forall|id: i64| #[trigger] index.contains_key(id) ==> index[id] < images.len() && images[index[id] as int].id == id
    &&& forall|q: int| 0 <= q < images.len() ==> index.contains_key(#[trigger] images[q].id)
}

/// The position of the image with id `id`, or the number of images if none
/// has it.
fn find_image(index: &HashMap<i64, usize>, images: &Vec<Image>, id: i64) -> (j: usize)
    requires
        indexes(index@, images@),
    ensures
        j <= images.len(),
        j < images.len() ==> images@[j as int].id == id,
        j == images.len() ==> forall|q: int| 0 <= q < images.len() ==> (#[trigger] images@[q]).id != id,
{
    match index.get(&id) {
        Some(j) => *j,
        None => images.len(),
    }
}

/// Finds the image of row `i` among those gathered so far, adding it from
/// the row's columns where the row is its first.
fn image_slot(images: &mut Vec<Image>, index: &mut HashMap<i64, usize>, rows: &Vec<ImageRow>, i: usize) -> (r: Result<usize, AppError>)
    requires
        i < rows.len(),
        indexes(old(index)@, old(images)@),
        headers_before(old(images)@, rows@, i as int),
        partitions_before(old(images)@, rows@, i as int),
    ensures
        match r {
            Ok(j) => {
                &&& j < final(images).len()
                &&& final(images)@[j as int].id == rows@[i as int].image_id
                &&& indexes(final(index)@, final(images)@)
                &&& headers_before(final(images)@, rows@, i + 1)
                &&& partitions_before(final(images)@, rows@, i as int)
            },
            Err(e) => some_status_unparsed(rows@) && e@ == conversion_error(),
        },
{
    let row = &rows[i];
    let j = find_image(index, images, row.image_id);
    let ghost before = images@;
    proof {
        lemma_image_ids_step(rows@, i as int);
    }
    if j < images.len() {
        proof {
            assert(images@.map_values(|im: Image| im.id)[j as int] == row.image_id);
            assert(image_ids(rows@.take(i as int))[j as int] == row.image_id);
            assert(image_ids(rows@.take(i as int)).contains(row.image_id));
            lemma_image_ids_members(rows@.take(i as int));
            assert(ids_among(rows@.take(i as int), row.image_id));
            let m = choose|m: int| 0 <= m < i && #[trigger] rows@.take(i as int)[m].image_id == row.image_id;
            assert(rows@[m].image_id == rows@[i as int].image_id);
            assert(!first_of_its_image(rows@, i as int));
            assert(images@.map_values(|im: Image| im.id) == image_ids(rows@.take(i + 1)));
            assert forall|q: int| 0 <= q < images.len() implies #[trigger] carried_before(images@[q], rows@, i + 1) by {
                assert(carried_before(images@[q], rows@, i as int));
            }
        }
        return Ok(j);
    }
    proof {
        assert(!image_ids(rows@.take(i as int)).contains(row.image_id)) by {
            if image_ids(rows@.take(i as int)).contains(row.image_id) {
                let q = image_ids(rows@.take(i as int)).index_of(row.image_id);
                assert(images@.map_values(|im: Image| im.id)[q] == row.image_id);
            }
        }
        lemma_fresh_row_is_first(rows@, i as int);
    }
    let image = Image::from_row(
        row.image_id,
        row.image_name.clone(),
        row.captured_at,
        row.image_status.clone(),
        copy_text(&row.error),
        Vec::new(),
    );
    match image {
        Err(e) => {
            assert(first_of_its_image(rows@, i as int) && status_unparsed(rows@[i as int]));
            Err(e)
        },
        Ok(img) => {
            images.push(img);
            index.insert(row.image_id, j);
            proof {
                assert forall|q: int| 0 <= q < images.len() implies index@.contains_key(#[trigger] images@[q].id) by {
                    if q < j {
                        assert(images@[q] == before[q]);
                    }
                }
                assert forall|id: i64| #[trigger] index@.contains_key(id) implies index@[id] < images.len()
                    && images@[index@[id] as int].id == id by {
                    if id != row.image_id {
                        assert(images@[index@[id] as int] == before[index@[id] as int]);
                    }
                }
                assert(images@.map_values(|im: Image| im.id) =~= before.map_values(
                    |im: Image| im.id).push(row.image_id));
                assert forall|k: int| 0 <= k < i implies (#[trigger] rows@.take(i as int)[k]).image_id
                    != row.image_id by {
                    assert(rows@.take(i as int)[k] == rows@[k]);
                }
                lemma_no_partitions(rows@.take(i as int), row.image_id);
                assert(images@[j as int].partitions@.map_values(|p: ImagePartition| p@)
                    =~= Seq::<(i64, i64, Seq<char>, u64)>::empty());
                assert(carries_row(images@[j as int], rows@[i as int]));
                assert(carried_before(images@[j as int], rows@, i + 1));
                assert forall|q: int| 0 <= q < images.len() implies #[trigger] carried_before(images@[q], rows@, i + 1) by {
                    if q < j {
                        assert(images@[q] == before[q]);
                        assert(carried_before(before[q], rows@, i as int));
                    }
                }
                assert forall|q: int| 0 <= q < images.len() implies (#[trigger] images@[q]).partitions@.map_values(
                    |p: ImagePartition| p@) == partitions_of(rows@.take(i as int), images@[q].id) by {
                    if q < j {
                        assert(images@[q] == before[q]);
                    }
                }
            }
            Ok(j)
        },
    }
}

/// Adding row `i`'s partition (`extra`, empty where it has none) to the
/// image `j` of that row keeps the headers and brings the partitions up to
/// row `i + 1`.
proof fn lemma_partition_added(
    middle: Seq<Image>,
    images: Seq<Image>,
    rows: Seq<ImageRow>,
    i: int,
    j: int,
    extra: Seq<(i64, i64, Seq<char>, u64)>,
)
    requires
        0 <= i < rows.len(),
        0 <= j < middle.len(),
        middle[j].id == rows[i].image_id,
        headers_before(middle, rows, i + 1),
        partitions_before(middle, rows, i),
        extra == (if row_partition(rows[i]) is Some {
            seq![row_partition(rows[i])->0]
        } else {
            Seq::empty()
        }),
        images.len() == middle.len(),
        forall|q: int| 0 <= q < images.len() && q != j ==> images[q] == middle[q],
        images[j].id == middle[j].id,
        images[j].name == middle[j].name,
        images[j].captured_at == middle[j].captured_at,
        images[j].error == middle[j].error,
        images[j].status == middle[j].status,
        images[j].partitions@.map_values(|p: ImagePartition| p@) == middle[j].partitions@.map_values(
            |p: ImagePartition| p@) + extra,
    ensures
        headers_before(images, rows, i + 1),
        partitions_before(images, rows, i + 1),
{
    assert forall|q: int| 0 <= q < images.len() implies (#[trigger] images[q]).partitions@.map_values(
        |p: ImagePartition| p@) == partitions_of(rows.take(i + 1), images[q].id) by {
        lemma_partitions_step(rows, i, images[q].id);
        assert(middle[q].partitions@.map_values(|p: ImagePartition| p@) == partitions_of(rows.take(i), middle[q].id));
        if q != j {
            assert(images[q] == middle[q]);
            lemma_image_ids_members(rows.take(i + 1));
            assert(middle.map_values(|im: Image| im.id)[q] != middle.map_values(|im: Image| im.id)[j]);
        } else {
            assert(images[q].id == rows[i].image_id);
        }
    }
    assert(images.map_values(|im: Image| im.id) =~= middle.map_values(|im: Image| im.id));
    assert forall|q: int| 0 <= q < images.len() implies #[trigger] carried_before(images[q], rows, i + 1) by {
        assert(carried_before(middle[q], rows, i + 1));
        let k = choose|k: int| 0 <= k < i + 1 && first_of_its_image(rows, k) && rows[k].image_id == middle[q].id
            && carries_row(middle[q], #[trigger] rows[k]);
        assert(carries_row(images[q], rows[k]));
    }
}

/// Adds row `i` to the images gathered from the rows before it.
fn add_row(images: &mut Vec<Image>, index: &mut HashMap<i64, usize>, rows: &Vec<ImageRow>, i: usize) -> (r: Result<(), AppError>)
    requires
        i < rows.len(),
        indexes(old(index)@, old(images)@),
        headers_before(old(images)@, rows@, i as int),
        partitions_before(old(images)@, rows@, i as int),
    ensures
        match r {
            Ok(_) => headers_before(final(images)@, rows@, i + 1)
                && partitions_before(final(images)@, rows@, i + 1)
                && indexes(final(index)@, final(images)@),
            Err(e) => some_status_unparsed(rows@) && e@ == conversion_error(),
        },
{
    let j = image_slot(images, index, rows, i)?;
    let ghost middle = images@;
    let part = partition_of_row(&rows[i]);
    let ghost extra: Seq<(i64, i64, Seq<char>, u64)> = if row_partition(rows@[i as int]) is Some {
        seq![row_partition(rows@[i as int])->0]
    } else {
        Seq::empty()
    };
    match part {
        Some(p) => {
            images[j].partitions.push(p);
            proof {
                assert(images@[j as int].partitions@ == middle[j as int].partitions@.push(p));
                assert(images@[j as int].partitions@.map_values(|p: ImagePartition| p@) =~= middle[j as int].partitions@.map_values(
                    |p: ImagePartition| p@) + extra);
            }
        },
        None => {
            proof {
                assert(images@[j as int].partitions@.map_values(|p: ImagePartition| p@) =~= middle[j as int].partitions@.map_values(
                    |p: ImagePartition| p@) + extra);
            }
        },
    }
    proof {
        lemma_partition_added(middle, images@, rows@, i as int, j as int, extra);
        assert forall|q: int| 0 <= q < images.len() implies (#[trigger] images@[q]).id == middle[q].id by {
            if q != j {
                assert(images@[q] == middle[q]);
            }
        }
        assert forall|q: int| 0 <= q < images.len() implies index@.contains_key(#[trigger] images@[q].id) by {
            assert(index@.contains_key(middle[q].id));
        }
        assert forall|id: i64| #[trigger] index@.contains_key(id) implies index@[id] < images.len()
            && images@[index@[id] as int].id == id by {
            assert(images@[index@[id] as int].id == middle[index@[id] as int].id);
        }
    }
    Ok(())
}

/// Gathers the rows of the images-with-partitions join into images, in the
/// order each image first appears. Each image carries the columns of its
/// first row and the partitions of all its rows, in row order; a row with a
/// partition column missing adds no partition. The status of each image's
/// first row is parsed; the first that names no status makes the whole
/// result an `Internal("conversion error")`.
pub fn group_image_rows(rows: Vec<ImageRow>) -> (r: Result<Vec<Image>, AppError>)
    ensures
        match r {
            Ok(images) => {
                &&& !some_status_unparsed(rows@)
                &&& images@.map_values(|i: Image| i.id) == image_ids(rows@)
                &&& forall|j: int| 0 <= j < images.len() ==> grouped_from(#[trigger] images@[j], rows@)
            },
            Err(e) => some_status_unparsed(rows@) && e@ == conversion_error(),
        },
{
    let mut images: Vec<Image> = Vec::new();
    let mut index: HashMap<i64, usize> = HashMap::new();
    let n = rows.len();
    let mut i: usize = 0;
    proof {
        assert(rows@.take(0) =~= Seq::<ImageRow>::empty());
        assert(images@.map_values(|im: Image| im.id) =~= Seq::<i64>::empty());
    }
    while i < n
        invariant
            n == rows.len(),
            0 <= i <= n,
            headers_before(images@, rows@, i as int),
            partitions_before(images@, rows@, i as int),
            indexes(index@, images@),
        decreases n - i,
    {
        add_row(&mut images, &mut index, &rows, i)?;
        i = i + 1;
    }
    proof {
        assert(rows@.take(n as int) =~= rows@);
        assert forall|j: int| 0 <= j < images.len() implies grouped_from(#[trigger] images@[j], rows@) by {
            assert(carried_before(images@[j], rows@, n as int));
        }
    }
    Ok(images)
}

fn copy_text(text: &Option<String>) -> (c: Option<String>)
    ensures
        c == *text,
{
    match text {
        Some(t) => Some(t.clone()),
        None => None,
    }
}

/// The partition a row carries, if all its partition columns are present.
fn partition_of_row(row: &ImageRow) -> (p: Option<ImagePartition>)
    ensures
        p is Some == row_partition(*row) is Some,
        p is Some ==> p->0@ == row_partition(*row)->0,
{
    match (&row.p_id, &row.p_num, &row.p_fstype, &row.p_size) {
        (Some(id), Some(num), Some(fstype), Some(size)) => Some(
            ImagePartition::from_row(*id, *num, fstype.clone(), *size),
        ),
        _ => None,
    }
}

/// Every ImageStatus's name is plain lowercase ASCII and parses back to it, so
/// rendering then parsing gives the value back (`from_string` on ASCII input
/// lowercases the ASCII way).
pub proof fn lemma_image_status_round_trip(v: ImageStatus)
    ensures
        all_ascii(image_status_name(v)),
        ascii_lowercase(image_status_name(v)) == image_status_name(v),
        image_status_named(image_status_name(v)) == Some(v),
{
    reveal_strlit("empty");
    reveal_strlit("capturing");
    reveal_strlit("ready");
    reveal_strlit("faulted");
    assert(ascii_lowercase(image_status_name(v)) =~= image_status_name(v));
    assert("empty"@.len() != "capturing"@.len());
    assert("empty"@[0] != "ready"@[0]);
    assert("empty"@.len() != "faulted"@.len());
    assert("capturing"@.len() != "ready"@.len());
    assert("capturing"@.len() != "faulted"@.len());
    assert("ready"@.len() != "faulted"@.len());
}

} // verus!
