//! Images of a book: their cache files, their kinds, and where chapter text
//! refers to them.

use vstd::prelude::*;
use vstd::utf8;

use crate::apps::reader::wrap::Markup;
use crate::bytes::{eq_icase, eq_ignore_case, le16, le_bytes16, lemma_le16, read_le16, text_bytes, utf8_or};

verus! {

/// A picture of one bit per pixel, `stride` bytes to a row.
pub struct Image {
    pub width: u16,
    pub height: u16,
    pub stride: usize,
    pub data: Vec<u8>,
}

/// The value of an image.
pub struct ImageView {
    pub width: u16,
    pub height: u16,
    pub stride: usize,
    pub data: Seq<u8>,
}

impl View for Image {
    type V = ImageView;

    open spec fn view(&self) -> ImageView {
        ImageView {
            width: self.width,
            height: self.height,
            stride: self.stride,
            data: self.data@,
        }
    }
}

/// The value of an image that may be missing.
pub open spec fn image_of(i: Option<Image>) -> Option<ImageView> {
    match i {
        Some(i) => Some(i@),
        None => None,
    }
}

impl Image {
    pub fn copy(&self) -> (r: Image)
        ensures
            r@ == self@,
    {
        let mut data: Vec<u8> = Vec::new();
        data.extend_from_slice(self.data.as_slice());
        assert(data@ =~= self.data@);
        Image { width: self.width, height: self.height, stride: self.stride, data }
    }
}

/// The hexadecimal digit of a number below 16.
pub open spec fn hex_digit(v: int) -> u8 {
    if v < 10 {
        (48 + v) as u8
    } else {
        (55 + v) as u8
    }
}

/// The last `k` hexadecimal digits of `v`.
pub open spec fn hex(v: int, k: nat) -> Seq<u8>
    decreases k,
{
    if k == 0 {
        Seq::empty()
    } else {
        hex(v / 16, (k - 1) as nat).push(hex_digit(v % 16))
    }
}

/// The name of the cache file of the image whose path hashes to `hash`.
pub open spec fn cache_name(hash: u32) -> Seq<u8> {
    hex(hash as int, 8) + text_bytes(".BIN")
}

proof fn lemma_hex_len(v: int, k: nat)
    ensures
        hex(v, k).len() == k,
    decreases k,
{
    if k > 0 {
        lemma_hex_len(v / 16, (k - 1) as nat);
    }
}

proof fn lemma_bin_text()
    ensures
        text_bytes(".BIN") == seq![46u8, 66u8, 73u8, 78u8],
{
    reveal_strlit(".BIN");
    crate::bytes::lemma_ascii_text(".BIN");
    assert(text_bytes(".BIN") =~= seq![46u8, 66u8, 73u8, 78u8]);
}

/// Eight digits and `.BIN`.
pub fn img_cache_name(hash: u32) -> (r: [u8; 12])
    ensures
        r@ == cache_name(hash),
{
    let mut n: [u8; 12] = [48, 48, 48, 48, 48, 48, 48, 48, 46, 66, 73, 78];
    let mut v = hash;
    let mut i: usize = 8;
    assert(n@.subrange(8, 8) =~= Seq::empty());
    while i > 0
        invariant
            i <= 8,
            n@.subrange(8, 12) == seq![46u8, 66u8, 73u8, 78u8],
            hex(hash as int, 8) == hex(v as int, i as nat) + n@.subrange(i as int, 8),
        decreases i,
    {
        let ghost was = n@;
        let ghost v0 = v as int;
        i -= 1;
        let d = (v % 16) as u8;
        n[i] = if d < 10 {
            48 + d
        } else {
            55 + d
        };
        v = v / 16;
        proof {
            assert(n@.subrange(8, 12) =~= was.subrange(8, 12));
            assert(n@.subrange(i as int, 8) =~= seq![hex_digit(v0 % 16)] + was.subrange(
                i + 1,
                8,
            ));
            assert(hex(v0, (i + 1) as nat) + was.subrange(i + 1, 8) =~= hex(v as int, i as nat)
                + n@.subrange(i as int, 8));
        }
    }
    proof {
        lemma_bin_text();
        assert(n@ =~= n@.subrange(0, 8) + n@.subrange(8, 12));
        assert(hex(hash as int, 8) =~= n@.subrange(0, 8));
    }
    n
}

/// The name of a cache file as text.
pub fn img_cache_str(buf: &[u8; 12]) -> (r: &str)
    ensures
        utf8::valid_utf8(buf@) ==> utf8::encode_utf8(r@) == buf@,
        !utf8::valid_utf8(buf@) ==> r@ == "00000000.BIN"@,
{
    let b: &[u8] = buf;
    utf8_or(b, "00000000.BIN")
}

/// How many numbers `k` hexadecimal digits can tell apart.
spec fn span(k: nat) -> int
    decreases k,
{
    if k == 0 {
        1
    } else {
        16 * span((k - 1) as nat)
    }
}

proof fn lemma_hex_tells(a: int, b: int, k: nat)
    requires
        0 <= a < span(k),
        0 <= b < span(k),
        hex(a, k) == hex(b, k),
    ensures
        a == b,
    decreases k,
{
    if k > 0 {
        let m = (k - 1) as nat;
        lemma_hex_len(a / 16, m);
        lemma_hex_len(b / 16, m);
        let x = hex(a, k);
        assert(x.last() == hex_digit(a % 16));
        assert(hex(b, k).last() == hex_digit(b % 16));
        assert(x.drop_last() =~= hex(a / 16, m));
        assert(hex(b, k).drop_last() =~= hex(b / 16, m));
        lemma_hex_tells(a / 16, b / 16, m);
    }
}

/// Images with different hashes have different cache files.
pub proof fn law_cache_names_differ(a: u32, b: u32)
    requires
        a != b,
    ensures
        cache_name(a) != cache_name(b),
{
    if cache_name(a) == cache_name(b) {
        lemma_hex_len(a as int, 8);
        lemma_hex_len(b as int, 8);
        assert(hex(a as int, 8) =~= cache_name(a).take(8));
        assert(hex(b as int, 8) =~= cache_name(b).take(8));
        reveal_with_fuel(span, 9);
        lemma_hex_tells(a as int, b as int, 8);
    }
}

/// `path` ends in a dot and `ext`, in whatever case.
pub open spec fn has_ext(path: Seq<u8>, ext: Seq<u8>) -> bool {
    &&& path.len() >= ext.len() + 1
    &&& path[path.len() - ext.len() - 1] == 46
    &&& eq_icase(path.skip(path.len() - ext.len()), ext)
}

/// `path` ends in `end`.
pub open spec fn ends_in(path: Seq<u8>, end: Seq<u8>) -> bool {
    path.len() >= end.len() && path.skip(path.len() - end.len()) == end
}

pub fn path_ext_eq(path: &[u8], ext: &[u8]) -> (r: bool)
    requires
        ext@.len() < usize::MAX,
    ensures
        r == has_ext(path@, ext@),
{
    let need = ext.len() + 1;
    if path.len() < need {
        return false;
    }
    if path[path.len() - need] != 46 {
        return false;
    }
    let tail = &path[path.len() - ext.len()..path.len()];
    assert(tail@ =~= path@.skip(path@.len() - ext@.len()));
    eq_ignore_case(tail, ext)
}

pub open spec fn jpeg_path(path: Seq<u8>) -> bool {
    has_ext(path, text_bytes("jpg")) || has_ext(path, text_bytes("jpeg"))
}

pub open spec fn png_path(path: Seq<u8>) -> bool {
    has_ext(path, text_bytes("png"))
}

proof fn lemma_short(s: &str)
    requires
        utf8::is_ascii_chars(s@),
        s@.len() < 16,
    ensures
        text_bytes(s).len() < 16,
{
    crate::bytes::lemma_ascii_text(s);
}

pub fn is_image_ext_jpeg(path: &[u8]) -> (r: bool)
    ensures
        r == jpeg_path(path@),
{
    proof {
        reveal_strlit("jpg");
        reveal_strlit("jpeg");
        lemma_short("jpg");
        lemma_short("jpeg");
    }
    path_ext_eq(path, "jpg".as_bytes()) || path_ext_eq(path, "jpeg".as_bytes())
}

pub fn is_image_ext_png(path: &[u8]) -> (r: bool)
    ensures
        r == png_path(path@),
{
    proof {
        reveal_strlit("png");
        lemma_short("png");
    }
    path_ext_eq(path, "png".as_bytes())
}

fn path_ends_in(path: &[u8], end: &[u8]) -> (r: bool)
    ensures
        r == ends_in(path@, end@),
{
    if path.len() < end.len() {
        return false;
    }
    let tail = &path[path.len() - end.len()..path.len()];
    assert(tail@ =~= path@.skip(path@.len() - end@.len()));
    crate::bytes::eq_bytes(tail, end)
}

/// A name that says JPEG, written all in one case.
pub open spec fn jpeg_name(path: Seq<u8>) -> bool {
    ends_in(path, text_bytes(".jpg")) || ends_in(path, text_bytes(".jpeg")) || ends_in(
        path,
        text_bytes(".JPG"),
    ) || ends_in(path, text_bytes(".JPEG"))
}

/// A name that says PNG, written all in one case.
pub open spec fn png_name(path: Seq<u8>) -> bool {
    ends_in(path, text_bytes(".png")) || ends_in(path, text_bytes(".PNG"))
}

pub fn names_jpeg(path: &[u8]) -> (r: bool)
    ensures
        r == jpeg_name(path@),
{
    path_ends_in(path, ".jpg".as_bytes()) || path_ends_in(path, ".jpeg".as_bytes())
        || path_ends_in(path, ".JPG".as_bytes()) || path_ends_in(path, ".JPEG".as_bytes())
}

pub fn names_png(path: &[u8]) -> (r: bool)
    ensures
        r == png_name(path@),
{
    path_ends_in(path, ".png".as_bytes()) || path_ends_in(path, ".PNG".as_bytes())
}

/// The first bytes of a JPEG file.
pub open spec fn jpeg_magic(b: Seq<u8>) -> bool {
    b.len() >= 2 && b[0] == 0xFF && b[1] == 0xD8
}

/// The first bytes of a PNG file.
pub open spec fn png_magic(b: Seq<u8>) -> bool {
    b.len() >= 8 && b.take(8) == seq![137u8, 80u8, 78u8, 71u8, 13u8, 10u8, 26u8, 10u8]
}

pub fn starts_jpeg(b: &[u8]) -> (r: bool)
    ensures
        r == jpeg_magic(b@),
{
    b.len() >= 2 && b[0] == 0xFF && b[1] == 0xD8
}

pub fn starts_png(b: &[u8]) -> (r: bool)
    ensures
        r == png_magic(b@),
{
    if b.len() < 8 {
        return false;
    }
    let ghost want = seq![137u8, 80u8, 78u8, 71u8, 13u8, 10u8, 26u8, 10u8];
    let r = b[0] == 137 && b[1] == 80 && b[2] == 78 && b[3] == 71 && b[4] == 13 && b[5] == 10
        && b[6] == 26 && b[7] == 10;
    proof {
        let head = b@.take(8);
        if r {
            assert(head =~= want);
        } else if head == want {
            assert(head[0] == 137 && head[1] == 80 && head[2] == 78 && head[3] == 71 && head[4]
                == 13 && head[5] == 10 && head[6] == 26 && head[7] == 10);
        }
    }
    r
}

/// The bytes of a row of `width` pixels.
pub open spec fn row_bytes(width: int) -> int {
    (width + 7) / 8
}

/// The header of a cache file: width and height, little endian.
pub open spec fn header_of(width: u16, height: u16) -> Seq<u8> {
    le_bytes16(width as int) + le_bytes16(height as int)
}

pub fn image_header(img: &Image) -> (r: Vec<u8>)
    ensures
        r@ == header_of(img.width, img.height),
{
    let mut h: Vec<u8> = Vec::new();
    h.push((img.width % 256) as u8);
    h.push((img.width / 256) as u8);
    h.push((img.height % 256) as u8);
    h.push((img.height / 256) as u8);
    assert(h@ =~= header_of(img.width, img.height));
    h
}

/// Bytes made up to `len` with zeros.
pub open spec fn padded(b: Seq<u8>, len: int) -> Seq<u8> {
    b + Seq::new((len - b.len()) as nat, |i: int| 0u8)
}

pub fn pad(b: &mut Vec<u8>, len: usize)
    requires
        old(b)@.len() <= len,
    ensures
        final(b)@ == padded(old(b)@, len as int),
{
    let ghost was = b@;
    assert(b@ =~= padded(was, was.len() as int));
    while b.len() < len
        invariant
            was.len() <= b@.len() <= len,
            b@ == padded(was, b@.len() as int),
        decreases len - b@.len(),
    {
        let ghost n = b@.len() as int;
        b.push(0);
        assert(b@ =~= padded(was, n + 1));
    }
}

/// The width and height that the header of a cache file of `size` bytes gives,
/// where they agree with the size.
pub open spec fn dims_of(header: Seq<u8>, size: u32) -> Option<(u16, u16)> {
    let h = padded(header, 4);
    let width = le16(h, 0) as u16;
    let height = le16(h, 2) as u16;
    if size >= 5 && width > 0 && height > 0 && size == 4 + row_bytes(width as int) * height {
        Some((width, height))
    } else {
        None
    }
}

pub fn image_dims(header: &[u8], size: u32) -> (r: Option<(u16, u16)>)
    requires
        header@.len() <= 4,
    ensures
        r == dims_of(header@, size),
{
    let mut h: Vec<u8> = Vec::new();
    h.extend_from_slice(header);
    assert(h@ =~= header@);
    pad(&mut h, 4);
    if size < 5 {
        return None;
    }
    let width = read_le16(h.as_slice(), 0);
    let height = read_le16(h.as_slice(), 2);
    if width == 0 || height == 0 {
        return None;
    }
    let stride: u64 = (width as u64 + 7) / 8;
    assert(0 <= stride * height <= 8192 * 65535) by (nonlinear_arith)
        requires
            0 <= stride <= 8192,
            0 <= height <= 65535,
    ;
    if size as u64 != 4 + stride * height as u64 {
        return None;
    }
    Some((width, height))
}

/// An image whose rows fill its data.
pub open spec fn whole_image(i: ImageView) -> bool {
    &&& i.width > 0
    &&& i.height > 0
    &&& i.stride == row_bytes(i.width as int)
    &&& i.data.len() == i.stride * i.height
}

/// The header of an image's cache file gives the image's width and height.
pub proof fn lemma_image_dims(i: ImageView)
    requires
        whole_image(i),
        4 + i.data.len() <= u32::MAX,
    ensures
        dims_of(header_of(i.width, i.height), (4 + i.data.len()) as u32) == Some(
            (i.width, i.height),
        ),
{
    let h = header_of(i.width, i.height);
    assert(padded(h, 4) =~= h);
    lemma_le16(i.width, h, 0);
    lemma_le16(i.height, h, 2);
    assert(row_bytes(i.width as int) * i.height >= 1) by (nonlinear_arith)
        requires
            row_bytes(i.width as int) >= 1,
            i.height >= 1,
    ;
}

/// A reference to an image stands at `j`: the marker, the code, the length of
/// the path, and all of the path.
pub open spec fn reference_at(b: Seq<u8>, n: int, m: Markup, j: int) -> bool {
    &&& 0 <= j
    &&& j + 2 < n
    &&& b[j] == m.marker
    &&& b[j + 1] == m.img_ref
    &&& b[j + 2] > 0
    &&& j + 3 + b[j + 2] <= n
}

/// The first reference from `i` on in the first `n` bytes.
pub open spec fn next_reference(b: Seq<u8>, n: int, m: Markup, i: int) -> Option<int>
    decreases n - i,
{
    if i + 2 >= n {
        None
    } else if reference_at(b, n, m, i) {
        Some(i)
    } else {
        next_reference(b, n, m, i + 1)
    }
}

pub fn find_reference(b: &[u8], n: usize, m: &Markup, from: usize) -> (r: Option<usize>)
    requires
        n <= b@.len(),
        n <= 0xFFFF,
        from <= n,
    ensures
        (match r {
            Some(j) => Some(j as int),
            None => None,
        }) == next_reference(b@, n as int, *m, from as int),
        r matches Some(j) ==> from <= j && reference_at(b@, n as int, *m, j as int),
{
    let mut i = from;
    while i + 2 < n
        invariant
            n <= b@.len(),
            n <= 0xFFFF,
            from <= i <= n,
            next_reference(b@, n as int, *m, i as int) == next_reference(
                b@,
                n as int,
                *m,
                from as int,
            ),
        decreases n - i,
    {
        if b[i] == m.marker && b[i + 1] == m.img_ref {
            let len = b[i + 2] as usize;
            if len > 0 && i + 3 + len <= n {
                return Some(i);
            }
        }
        i += 1;
    }
    None
}

/// The directory part of a path: what stands before its last slash.
pub open spec fn dir_part(path: Seq<u8>, end: int) -> Seq<u8>
    decreases end,
{
    if end <= 0 {
        Seq::empty()
    } else if path[end - 1] == 47 {
        path.take(end - 1)
    } else {
        dir_part(path, end - 1)
    }
}

pub fn dir_of(path: &[u8]) -> (r: &[u8])
    ensures
        r@ == dir_part(path@, path@.len() as int),
{
    let mut end = path.len();
    while end > 0
        invariant
            end <= path@.len(),
            dir_part(path@, end as int) == dir_part(path@, path@.len() as int),
        decreases end,
    {
        if path[end - 1] == 47 {
            let d = &path[0..end - 1];
            assert(d@ =~= path@.take(end - 1));
            return d;
        }
        end -= 1;
    }
    let d = &path[0..0];
    assert(d@ =~= Seq::empty());
    d
}

/// The number that a row of hexadecimal digits stands for.
pub open spec fn hex_number(digits: Seq<u8>) -> int
    decreases digits.len(),
{
    if digits.len() == 0 {
        0
    } else {
        let d = digits.last() as int;
        16 * hex_number(digits.drop_last()) + if d < 65 {
            d - 48
        } else {
            d - 55
        }
    }
}

proof fn lemma_hex_number(v: int, k: nat)
    requires
        0 <= v < span(k),
    ensures
        hex_number(hex(v, k)) == v,
    decreases k,
{
    if k > 0 {
        let m = (k - 1) as nat;
        lemma_hex_number(v / 16, m);
        assert(hex(v, k).drop_last() =~= hex(v / 16, m));
    }
}

/// The name of a cache file is the hash of the image in eight hexadecimal
/// digits, and says that the file holds bytes.
pub proof fn law_the_cache_name_is_the_hash(hash: u32)
    ensures
        cache_name(hash).len() == 12,
        hex_number(cache_name(hash).take(8)) == hash,
        cache_name(hash).skip(8) == seq![46u8, 66u8, 73u8, 78u8],
{
    lemma_hex_len(hash as int, 8);
    lemma_bin_text();
    reveal_with_fuel(span, 9);
    lemma_hex_number(hash as int, 8);
    assert(cache_name(hash).take(8) =~= hex(hash as int, 8));
    assert(cache_name(hash).skip(8) =~= text_bytes(".BIN"));
}

/// The header of a cache file is the width, then the height; a row takes as many
/// bytes as its pixels need, and no more.
pub proof fn law_the_header_gives_the_size(width: u16, height: u16)
    ensures
        header_of(width, height).len() == 4,
        le16(header_of(width, height), 0) == width,
        le16(header_of(width, height), 2) == height,
        width <= 8 * row_bytes(width as int) < width + 8,
{
    lemma_le16(width, header_of(width, height), 0);
    lemma_le16(height, header_of(width, height), 2);
}

/// The directory part of a path is what stands before its last slash, and
/// nothing where there is none.
pub proof fn law_the_directory_is_before_the_last_slash(path: Seq<u8>, at: int)
    requires
        -1 <= at < path.len(),
        at >= 0 ==> path[at] == 47,
        forall|k: int| at < k < path.len() ==> #[trigger] path[k] != 47,
    ensures
        dir_part(path, path.len() as int) == if at >= 0 {
            path.take(at)
        } else {
            Seq::empty()
        },
{
    lemma_dir_part(path, at, path.len() as int);
}

proof fn lemma_dir_part(path: Seq<u8>, at: int, end: int)
    requires
        -1 <= at < end <= path.len() || at == -1 && end == 0,
        at >= 0 ==> path[at] == 47,
        forall|k: int| at < k < path.len() ==> #[trigger] path[k] != 47,
    ensures
        dir_part(path, end) == if at >= 0 {
            path.take(at)
        } else {
            Seq::empty()
        },
    decreases end,
{
    if end > 0 && at < end - 1 {
        assert(path[end - 1] != 47);
        lemma_dir_part(path, at, end - 1);
    }
}

} // verus!
