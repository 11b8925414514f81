use vstd::prelude::*;
use crate::bytes::{Parsed, ParseError, error_of, le_u32_of, read_le_u32};
use crate::params::{Param, Params, PValue, key_index, spec_params, parse_params, push_entry, values_model, lemma_params_model_index};
use crate::image::{Image, ImageView, spec_image, parse_image};
use crate::transform::{Transform, opt_view, seq_view, first_child, spec_usize_field, spec_option, transform_option, transform_usize};
use crate::common::WatchfaceParams;

verus! {

/// A watchface: its parameters and its images.
#[derive(Debug, PartialEq)]
pub struct Watchface<T> {
    pub parameters: Option<T>,
    pub images: Vec<Image>,
}

/// The mathematical value of a `Watchface`.
pub struct WatchfaceView<V> {
    pub parameters: Option<V>,
    pub images: Seq<ImageView>,
}

impl<T: View> View for Watchface<T> {
    type V = WatchfaceView<T::V>;

    open spec fn view(&self) -> WatchfaceView<T::V> {
        WatchfaceView { parameters: opt_view(self.parameters), images: seq_view(self.images@) }
    }
}

/// The bits of the little-endian number that `bs` make, cut to 64 bits.
pub open spec fn le_bits(bs: Seq<u8>) -> u64
    decreases bs.len(),
{
    if bs.len() == 0 {
        0
    } else {
        (bs[0] as u64) | (le_bits(bs.drop_first()) << 8u64)
    }
}

/// The little-endian number that the bytes `bytes` make, where a `usize`
/// holds that many bytes.
pub fn bytes_to_usize(bytes: &[u8]) -> (r: usize)
    requires
        bytes@.len() * 8 <= usize::BITS,
    ensures
        r == le_bits(bytes@) as usize,
{
    let n = bytes.len();
    let mut acc: u64 = 0;
    let mut i: usize = n;
    assert(bytes@.subrange(n as int, n as int) =~= Seq::<u8>::empty());
    while i > 0
        invariant
            i <= n,
            n == bytes@.len(),
            acc == le_bits(bytes@.subrange(i as int, n as int)),
        decreases i,
    {
        i = i - 1;
        let b = bytes[i];
        proof {
            let u = bytes@.subrange(i as int, n as int);
            assert(u.drop_first() =~= bytes@.subrange(i + 1, n as int));
            assert(u[0] == b);
        }
        acc = (b as u64) | (acc << 8u64);
    }
    assert(bytes@.subrange(0, n as int) =~= bytes@);
    acc as usize
}

/// Four bytes, read as `bytes_to_usize` does, make their little-endian `u32`.
pub proof fn lemma_le_bits_four(bs: Seq<u8>)
    requires
        bs.len() == 4,
    ensures
        le_bits(bs) == le_u32_of(bs) as u64,
{
    let t1 = bs.drop_first();
    let t2 = t1.drop_first();
    let t3 = t2.drop_first();
    let t4 = t3.drop_first();
    assert(t4.len() == 0);
    assert(le_bits(t4) == 0);
    let (a, b, c, d) = (bs[0], bs[1], bs[2], bs[3]);
    assert(t1[0] == b && t2[0] == c && t3[0] == d);
    assert(le_bits(t3) == (d as u64) | (0u64 << 8u64));
    assert(le_bits(t2) == (c as u64) | (le_bits(t3) << 8u64));
    assert(le_bits(t1) == (b as u64) | (le_bits(t2) << 8u64));
    assert(le_bits(bs) == (a as u64) | (le_bits(t1) << 8u64));
    assert((a as u64) | (((b as u64) | (((c as u64) | (((d as u64) | (0u64 << 8u64)) << 8u64)) << 8u64)) << 8u64)
        == (a as u64) + 256 * (b as u64) + 65536 * (c as u64) + 16777216 * (d as u64)) by (bit_vector);
}

/// The values under `k` in `es`, where there are any.
pub open spec fn values_under(es: Seq<(u8, Seq<PValue>)>, k: u8) -> Option<Seq<PValue>> {
    if key_index(es, k) >= 0 {
        Some(es[key_index(es, k)].1)
    } else {
        None
    }
}

/// The size or offset under `k` in `es`; `None` where there is none.
pub open spec fn size_under(es: Seq<(u8, Seq<PValue>)>, k: u8) -> Option<usize> {
    match values_under(es, k) {
        Some(vals) => spec_usize_field(vals),
        None => None,
    }
}

/// The parameters of one section: `vals` must hold an offset (key 1) and a
/// size (key 2), and the parameters lie at that offset from `start`.
pub open spec fn spec_section(s: Seq<u8>, start: nat, vals: Seq<PValue>) -> Parsed<Seq<(u8, Seq<PValue>)>> {
    match first_child(vals) {
        None => Parsed::Malformed,
        Some(sub) => match (size_under(sub, 1), size_under(sub, 2)) {
            (Some(offset), Some(size)) => {
                if offset > s.len() - start {
                    Parsed::Malformed
                } else {
                    match spec_params(s.skip(start + offset), size as nat, Seq::empty()) {
                        Parsed::Done(es, _) => Parsed::Done(es, 0),
                        Parsed::Fail => Parsed::Fail,
                        Parsed::Malformed => Parsed::Malformed,
                    }
                }
            },
            _ => Parsed::Malformed,
        },
    }
}

/// The sections that the entries of `info` other than key 1 describe, each
/// under its key as one child parameter.
pub open spec fn spec_sections(s: Seq<u8>, start: nat, info: Seq<(u8, Seq<PValue>)>) -> Parsed<Seq<(u8, Seq<PValue>)>>
    decreases info.len(),
{
    if info.len() == 0 {
        Parsed::Done(Seq::empty(), 0)
    } else {
        match spec_sections(s, start, info.drop_last()) {
            Parsed::Done(acc, _) => {
                let e = info.last();
                if e.0 == 1 {
                    Parsed::Done(acc, 0)
                } else {
                    match spec_section(s, start, e.1) {
                        Parsed::Done(es, _) => Parsed::Done(acc.push((e.0, seq![PValue::Child(es)])), 0),
                        Parsed::Fail => Parsed::Fail,
                        Parsed::Malformed => Parsed::Malformed,
                    }
                }
            },
            other => other,
        }
    }
}

/// The first `count` images: the offset of image `i`, from `start`, is the
/// little-endian `u32` at `4 * i` in `table`.
pub open spec fn spec_images(s: Seq<u8>, start: nat, table: Seq<u8>, count: nat) -> Parsed<Seq<ImageView>>
    decreases count,
{
    if count == 0 {
        Parsed::Done(Seq::empty(), 0)
    } else {
        match spec_images(s, start, table, (count - 1) as nat) {
            Parsed::Done(imgs, _) => {
                let offset = le_u32_of(table.skip(4 * (count - 1)));
                if offset > s.len() - start {
                    Parsed::Malformed
                } else {
                    match spec_image(s.skip(start + offset)) {
                        Parsed::Done(img, _) => Parsed::Done(imgs.push(img), 0),
                        Parsed::Fail => Parsed::Fail,
                        Parsed::Malformed => Parsed::Malformed,
                    }
                }
            },
            other => other,
        }
    }
}

/// The images of a watchface file whose parameters end at `start + params_size`:
/// `count` image offsets, four bytes each, then the images.
pub open spec fn spec_bin_images<V>(s: Seq<u8>, parameters: Option<V>, start: nat, params_size: usize, count: usize) -> Parsed<WatchfaceView<V>> {
    if params_size > s.len() - start {
        Parsed::Malformed
    } else if 4 * count > usize::MAX {
        Parsed::Malformed
    } else if 4 * count > s.len() - start - params_size {
        Parsed::Fail
    } else {
        let p = start + params_size;
        let table = s.subrange(p, p + 4 * count);
        match spec_images(s, (p + 4 * count) as nat, table, count as nat) {
            Parsed::Done(imgs, _) => Parsed::Done(WatchfaceView { parameters: parameters, images: imgs }, 0),
            Parsed::Fail => Parsed::Fail,
            Parsed::Malformed => Parsed::Malformed,
        }
    }
}

/// A watchface file after its parameter info `info`, which ends at `start`:
/// the sections of parameters, which are read into the parameters of the
/// watchface, then the images.
pub open spec fn spec_bin_rest<T: Transform>(s: Seq<u8>, info: Seq<(u8, Seq<PValue>)>, start: nat, params_size: usize, count: usize) -> Parsed<WatchfaceView<T::V>> {
    match spec_sections(s, start, info) {
        Parsed::Fail => Parsed::Fail,
        Parsed::Malformed => Parsed::Malformed,
        Parsed::Done(all, _) => match spec_option::<T>(None, seq![PValue::Child(all)]) {
            None => Parsed::Malformed,
            Some(parameters) => spec_bin_images(s, parameters, start, params_size, count),
        },
    }
}

/// A watchface file: a signature (4 bytes), a header (75 bytes), the size of
/// the largest parameter and the size of the parameter info (little-endian
/// `u32`s), then the parameter info. Its entry under key 1 holds the size of
/// the parameters (key 1) and the number of images (key 2); each other entry
/// holds the offset and size of a section of parameters, read into the
/// parameters of the watchface under the same key. After the parameters
/// come the image offsets, four bytes each, then the images.
/// (The count of a `Done` is not used.)
pub open spec fn spec_bin<T: Transform>(s: Seq<u8>) -> Parsed<WatchfaceView<T::V>> {
    if s.len() < 87 {
        Parsed::Fail
    } else {
        let info_size = le_u32_of(s.skip(83));
        match spec_params(s.skip(87), (info_size as usize) as nat, Seq::empty()) {
            Parsed::Fail => Parsed::Fail,
            Parsed::Malformed => Parsed::Malformed,
            Parsed::Done(info, n) => match values_under(info, 1) {
                None => Parsed::Malformed,
                Some(first_vals) => match first_child(first_vals) {
                    None => Parsed::Malformed,
                    Some(first) => match (size_under(first, 1), size_under(first, 2)) {
                        (Some(params_size), Some(count)) => spec_bin_rest::<T>(s, info, 87 + n, params_size, count),
                        _ => Parsed::Malformed,
                    },
                },
            },
        }
    }
}

/// The little-endian sum of the bytes `bs`: each byte times 256 to the
/// power of its position.
pub open spec fn le_value(bs: Seq<u8>) -> nat
    decreases bs.len(),
{
    if bs.len() == 0 {
        0
    } else {
        bs[0] as nat + 256 * le_value(bs.drop_first())
    }
}

proof fn lemma_pow256_values()
    ensures
        pow256(4) == 0x1_0000_0000,
        pow256(7) == 0x100_0000_0000_0000,
{
    assert(pow256(0) == 1);
    assert(pow256(1) == 0x100);
    assert(pow256(2) == 0x1_0000);
    assert(pow256(3) == 0x100_0000);
    assert(pow256(4) == 0x1_0000_0000);
    assert(pow256(5) == 0x100_0000_0000);
    assert(pow256(6) == 0x1_0000_0000_0000);
    assert(pow256(7) == 0x100_0000_0000_0000);
}

proof fn lemma_le_bits_value(bs: Seq<u8>)
    requires
        bs.len() <= 8,
    ensures
        le_bits(bs) as nat == le_value(bs),
    decreases bs.len(),
{
    if bs.len() > 0 {
        let rest = bs.drop_first();
        lemma_le_bits_value(rest);
        lemma_le_value_small_n(rest, 7);
        lemma_pow256_values();
        let r = le_bits(rest);
        let b = bs[0];
        assert(r < 0x100_0000_0000_0000);
        assert((b as u64) | (r << 8u64) == b as nat + 256 * (r as nat)) by (bit_vector)
            requires
                r < 0x100_0000_0000_0000,
        ;
    }
}

proof fn lemma_le_value_small_n(bs: Seq<u8>, n: nat)
    requires
        bs.len() <= n,
    ensures
        le_value(bs) < pow256(n),
    decreases n,
{
    if n > 0 {
        if bs.len() > 0 {
            lemma_le_value_small_n(bs.drop_first(), (n - 1) as nat);
        } else {
            lemma_le_value_small_n(bs, (n - 1) as nat);
        }
        assert(pow256(n) == 256 * pow256((n - 1) as nat));
    }
}

/// 256 to the power `n`.
pub open spec fn pow256(n: nat) -> nat
    decreases n,
{
    if n == 0 {
        1
    } else {
        256 * pow256((n - 1) as nat)
    }
}

/// The number that `bytes_to_usize` makes is the little-endian sum of the
/// bytes, the number of bytes being at most the width of a `usize`.
pub proof fn law_bytes_to_usize_sum(bs: Seq<u8>)
    requires
        bs.len() * 8 <= usize::BITS,
    ensures
        le_bits(bs) as usize as nat == le_value(bs),
{
    lemma_le_bits_value(bs);
    lemma_pow256_values();
    if bs.len() <= 4 {
        lemma_le_value_small_n(bs, 4);
    }
}

/// Once some of the images cannot be read, neither can more of them.
proof fn lemma_images_layout(s: Seq<u8>, start: nat, table: Seq<u8>, count: nat)
    ensures
        spec_images(s, start, table, count) matches Parsed::Done(imgs, _) ==> {
            &&& imgs.len() == count
            &&& forall|j: int|
                0 <= j < count ==> {
                    let offset = #[trigger] le_u32_of(table.skip(4 * j));
                    &&& offset <= s.len() - start
                    &&& spec_image(s.skip(start + offset)) matches Parsed::Done(v, _) && v == imgs[j]
                }
        },
    decreases count,
{
    if count > 0 {
        lemma_images_layout(s, start, table, (count - 1) as nat);
    }
}

/// A watchface file that is read has its parameters, and one image for each
/// entry of its offset table, in the order of the table: the image at the
/// offset that the entry gives, counted from the end of the table.
pub proof fn law_bin_images<V>(s: Seq<u8>, parameters: Option<V>, start: nat, params_size: usize, count: usize)
    ensures
        spec_bin_images(s, parameters, start, params_size, count) matches Parsed::Done(w, _) ==> {
            let p = start + params_size;
            let table = s.subrange(p, p + 4 * count);
            &&& w.parameters == parameters
            &&& w.images.len() == count
            &&& forall|j: int|
                0 <= j < count ==> {
                    let offset = #[trigger] le_u32_of(table.skip(4 * j));
                    &&& offset <= s.len() - (p + 4 * count)
                    &&& spec_image(s.skip(p + 4 * count + offset)) matches Parsed::Done(v, _) && v == w.images[j]
                }
        },
{
    let p = start + params_size;
    if params_size <= s.len() - start && 4 * count <= usize::MAX && 4 * count <= s.len() - start - params_size {
        lemma_images_layout(s, (p + 4 * count) as nat, s.subrange(p, p + 4 * count), count as nat);
    }
}

/// A watchface file that is read has its parameters.
pub proof fn law_bin_parameters<T: Transform>(s: Seq<u8>)
    ensures
        spec_bin::<T>(s) matches Parsed::Done(w, _) ==> w.parameters is Some,
{
    if s.len() >= 87 {
        let info_size = le_u32_of(s.skip(83));
        if let Parsed::Done(info, n) = spec_params(s.skip(87), (info_size as usize) as nat, Seq::empty()) {
            if let Some(first_vals) = values_under(info, 1) {
                if let Some(first) = first_child(first_vals) {
                    if let (Some(params_size), Some(count)) = (size_under(first, 1), size_under(first, 2)) {
                        let start = (87 + n) as nat;
                        if let Parsed::Done(all, _) = spec_sections(s, start, info) {
                            if let Some(parameters) = spec_option::<T>(None, seq![PValue::Child(all)]) {
                                law_bin_images(s, parameters, start, params_size, count);
                            }
                        }
                    }
                }
            }
        }
    }
}

/// The child parameters that the first of `vals` holds.
fn first_child_of(vals: &Vec<Param>) -> (r: Result<&Params, ParseError>)
    ensures
        match first_child(values_model(vals@)) {
            Some(es) => r matches Ok(ps) && ps.model() == es,
            None => r == Err::<&Params, ParseError>(ParseError::Malformed),
        },
{
    if vals.len() == 0 {
        return Err(ParseError::Malformed);
    }
    match &vals[0] {
        Param::Child(ps) => Ok(ps),
        _ => Err(ParseError::Malformed),
    }
}

/// The size or offset under `k` in `ps`.
fn size_of_key(ps: &Params, k: u8) -> (r: Result<usize, ParseError>)
    ensures
        match size_under(ps.model(), k) {
            Some(v) => r == Ok::<usize, ParseError>(v),
            None => r == Err::<usize, ParseError>(ParseError::Malformed),
        },
{
    match ps.get(k) {
        Some(vals) => {
            proof {
                crate::params::lemma_key_index_range(ps.model(), k);
                lemma_params_model_index(ps, key_index(ps.model(), k));
            }
            let mut v: usize = 0;
            transform_usize(&mut v, vals)?;
            Ok(v)
        },
        None => Err(ParseError::Malformed),
    }
}

/// Reads the parameters of one section; see `spec_section`.
fn parse_section(input: &[u8], start: usize, vals: &Vec<Param>) -> (r: Result<Params, ParseError>)
    requires
        start <= input@.len(),
    ensures
        match spec_section(input@, start as nat, values_model(vals@)) {
            Parsed::Done(es, _) => r matches Ok(ps) && ps.model() == es,
            other => r == Err::<Params, ParseError>(error_of(other)),
        },
{
    let sub = first_child_of(vals)?;
    let offset = size_of_key(sub, 1)?;
    let size = size_of_key(sub, 2)?;
    if offset > input.len() - start {
        return Err(ParseError::Malformed);
    }
    assert(input@.skip(start + offset) == input@.skip((start + offset) as int));
    match parse_params(input, start + offset, size) {
        Ok((ps, _)) => Ok(ps),
        Err(e) => Err(e),
    }
}

/// Reads a watchface file; see `spec_bin`.
pub fn parse_bin<T: Transform>(input: &[u8]) -> (r: Result<Watchface<T>, ParseError>)
    ensures
        match spec_bin::<T>(input@) {
            Parsed::Done(v, _) => r matches Ok(w) && w@ == v,
            other => r == Err::<Watchface<T>, ParseError>(error_of(other)),
        },
{
    let ghost s = input@;
    if input.len() < 87 {
        return Err(ParseError::Incomplete);
    }
    let info_size = match read_le_u32(input, 83) {
        Some(v) => v,
        None => {
            return Err(ParseError::Incomplete);
        },
    };
    assert(s.skip(83) =~= input@.skip(83));
    assert(s.skip(87) =~= input@.skip(87int));
    proof {
        crate::params::lemma_params_bounds(s.skip(87), (info_size as usize) as nat, Seq::empty());
    }
    let (info, params_start) = parse_params(input, 87, info_size as usize)?;
    let ghost im = info.model();
    let first_vals = match info.get(1) {
        Some(v) => v,
        None => {
            return Err(ParseError::Malformed);
        },
    };
    proof {
        crate::params::lemma_key_index_range(im, 1);
        lemma_params_model_index(&info, key_index(im, 1));
    }
    let first = first_child_of(first_vals)?;
    let params_size = size_of_key(first, 1)?;
    let images_count = size_of_key(first, 2)?;
    assert(spec_bin::<T>(s) == spec_bin_rest::<T>(s, im, params_start as nat, params_size, images_count));

    let mut all = Params { entries: Vec::new() };
    let n = info.entries.len();
    let mut i: usize = 0;
    assert(all.model() =~= Seq::<(u8, Seq<PValue>)>::empty());
    assert(im.take(0) =~= Seq::<(u8, Seq<PValue>)>::empty());
    while i < n
        invariant
            i <= n,
            n == info.entries@.len(),
            im == info.model(),
            im.len() == n,
            params_start <= input@.len(),
            spec_sections(s, params_start as nat, im.take(i as int)) == Parsed::Done(all.model(), 0),
            s == input@,
            spec_bin::<T>(s) == spec_bin_rest::<T>(s, im, params_start as nat, params_size, images_count),
        decreases n - i,
    {
        let e = &info.entries[i];
        proof {
            lemma_params_model_index(&info, i as int);
            assert(im.take(i + 1).drop_last() =~= im.take(i as int));
            assert(im.take(i + 1).last() == im[i as int]);
        }
        if e.key != 1 {
            let ps = match parse_section(input, params_start, &e.values) {
                Ok(ps) => ps,
                Err(err) => {
                    proof {
                        lemma_sections_stop(s, params_start as nat, im, (i + 1) as int);
                    }
                    return Err(err);
                },
            };
            push_entry(&mut all, e.key, Param::Child(ps));
        }
        i = i + 1;
    }
    assert(im.take(n as int) =~= im);
    let mut parameters: Option<T> = None;
    let mut top: Vec<Param> = Vec::new();
    top.push(Param::Child(all));
    assert(values_model(top@) =~= seq![PValue::Child(all.model())]);
    transform_option::<T>(&mut parameters, &top)?;
    assert(spec_bin::<T>(s) == spec_bin_images(s, opt_view(parameters), params_start as nat, params_size, images_count));

    if params_size > input.len() - params_start {
        return Err(ParseError::Malformed);
    }
    let p = params_start + params_size;
    let table_size = match images_count.checked_mul(4) {
        Some(v) => v,
        None => {
            return Err(ParseError::Malformed);
        },
    };
    if table_size > input.len() - p {
        return Err(ParseError::Incomplete);
    }
    let images_start = p + table_size;
    let ghost table = s.subrange(p as int, p + 4 * images_count);
    let mut images: Vec<Image> = Vec::new();
    let mut k: usize = 0;
    assert(seq_view(images@) =~= Seq::<ImageView>::empty());
    while k < images_count
        invariant
            k <= images_count,
            p + 4 * images_count == images_start,
            images_start <= input@.len(),
            s == input@,
            table == s.subrange(p as int, p + 4 * images_count),
            spec_images(s, images_start as nat, table, k as nat) == Parsed::Done(seq_view(images@), 0),
            spec_bin::<T>(s) == spec_bin_images(s, opt_view(parameters), params_start as nat, params_size, images_count),
            params_size <= input@.len() - params_start,
            p == params_start + params_size,
        decreases images_count - k,
    {
        let entry = vstd::slice::slice_subrange(input, p + 4 * k, p + 4 * k + 4);
        proof {
            assert(entry@ =~= table.skip(4 * k as int).take(4));
            lemma_le_bits_four(entry@);
        }
        let offset = bytes_to_usize(entry);
        assert(offset == le_u32_of(table.skip(4 * k as int)));
        if offset > input.len() - images_start {
            proof {
                lemma_images_stop(s, images_start as nat, table, (k + 1) as nat, images_count as nat);
            }
            return Err(ParseError::Malformed);
        }
        assert(s.skip(images_start + offset) == input@.skip((images_start + offset) as int));
        let (img, _) = match parse_image(input, images_start + offset) {
            Ok(x) => x,
            Err(err) => {
                proof {
                    lemma_images_stop(s, images_start as nat, table, (k + 1) as nat, images_count as nat);
                }
                return Err(err);
            },
        };
        let ghost before = seq_view(images@);
        images.push(img);
        assert(seq_view(images@) =~= before.push(img@));
        k = k + 1;
    }
    Ok(Watchface { parameters, images })
}

proof fn lemma_sections_stop(s: Seq<u8>, start: nat, info: Seq<(u8, Seq<PValue>)>, k: int)
    requires
        0 < k <= info.len(),
        !(spec_sections(s, start, info.take(k)) is Done),
    ensures
        spec_sections(s, start, info) == spec_sections(s, start, info.take(k)),
    decreases info.len() - k,
{
    if k < info.len() {
        assert(info.take(k + 1).drop_last() =~= info.take(k));
        lemma_sections_stop(s, start, info, k + 1);
    } else {
        assert(info.take(k) =~= info);
    }
}

proof fn lemma_images_stop(s: Seq<u8>, start: nat, table: Seq<u8>, k: nat, m: nat)
    requires
        k <= m,
        !(spec_images(s, start, table, k) is Done),
    ensures
        spec_images(s, start, table, m) == spec_images(s, start, table, k),
    decreases m,
{
    if m > k {
        lemma_images_stop(s, start, table, k, (m - 1) as nat);
    }
}

/// Reads a watchface file that is known to be well formed; see `parse_bin`.
pub fn bin_parser<T: Transform + WatchfaceParams>(input: &[u8]) -> (r: Result<Watchface<T>, ParseError>)
    requires
        !spec_bin::<T>(input@).is_malformed(),
    ensures
        match spec_bin::<T>(input@) {
            Parsed::Done(v, _) => r matches Ok(w) && w@ == v,
            _ => r == Err::<Watchface<T>, ParseError>(ParseError::Incomplete),
        },
{
    parse_bin(input)
}

} // verus!
