use vstd::prelude::*;
use crate::bytes::ParseError;
use crate::params::{Param, PValue};
use crate::transform::{
    Transform, opt_view, seq_view, spec_option, spec_list, transform_option, transform_list, spec_i32_field,
    spec_u32_field, spec_bool_field, spec_img_id_field, spec_opt_alignment_field, spec_alignment_field,
    spec_color_field, transform_i32, transform_u32, transform_bool, transform_img_id,
    transform_opt_alignment, transform_alignment, transform_color,
};
use crate::common::{ImgId, Alignment, AlignmentInternal, Color};

verus! {

/// An image of the watchface placed at a point.
#[derive(Debug, PartialEq, Default)]
pub struct ImageReference {
    pub x: i32,
    pub y: i32,
    pub image_index: Option<ImgId>,
}

impl View for ImageReference {
    type V = ImageReference;

    open spec fn view(&self) -> ImageReference {
        *self
    }
}

impl Transform for ImageReference {
    open spec fn spec_blank() -> ImageReference {
        ImageReference {
            x: 0i32,
            y: 0i32,
            image_index: None,
        }
    }

    open spec fn spec_apply(v: ImageReference, key: u8, vals: Seq<PValue>) -> Option<ImageReference> {
        if key == 1 {
            match spec_i32_field(vals) {
                Some(x) => Some(ImageReference {
                    x: x,
                    y: v.y,
                    image_index: v.image_index,
                }),
                None => None,
            }
        } else if key == 2 {
            match spec_i32_field(vals) {
                Some(x) => Some(ImageReference {
                    x: v.x,
                    y: x,
                    image_index: v.image_index,
                }),
                None => None,
            }
        } else if key == 3 {
            match spec_img_id_field(vals) {
                Some(x) => Some(ImageReference {
                    x: v.x,
                    y: v.y,
                    image_index: x,
                }),
                None => None,
            }
        } else {
            Some(v)
        }
    }

    fn blank() -> (r: Self) {
        let r = ImageReference {
            x: 0,
            y: 0,
            image_index: None,
        };
        r
    }

    fn apply(&mut self, key: u8, vals: &Vec<Param>) -> (r: Result<(), ParseError>) {
        if key == 1 {
            transform_i32(&mut self.x, vals)
        } else if key == 2 {
            transform_i32(&mut self.y, vals)
        } else if key == 3 {
            transform_img_id(&mut self.image_index, vals)
        } else {
            Ok(())
        }
    }
}

/// Filling a `ImageReference` with entries: a field whose key occurs in no entry
/// keeps its value; one whose key occurs holds the value read from the last
/// entry under it, or, for an element field, read into its value from
/// before where no key occurs twice.
pub proof fn law_image_reference_fields(v: ImageReference, es: Seq<(u8, Seq<PValue>)>)
    ensures
        crate::transform::spec_fold::<ImageReference>(v, es) matches Some(r) ==> {
            &&& crate::params::key_index(es, 1) < 0 ==> r.x == v.x
            &&& crate::params::key_index(es, 1) >= 0 ==> r.x == spec_i32_field(es[crate::params::key_index(es, 1)].1).unwrap()
            &&& crate::params::key_index(es, 2) < 0 ==> r.y == v.y
            &&& crate::params::key_index(es, 2) >= 0 ==> r.y == spec_i32_field(es[crate::params::key_index(es, 2)].1).unwrap()
            &&& crate::params::key_index(es, 3) < 0 ==> r.image_index == v.image_index
            &&& crate::params::key_index(es, 3) >= 0 ==> r.image_index == spec_img_id_field(es[crate::params::key_index(es, 3)].1).unwrap()
        },
    decreases es.len(),
{
    if es.len() > 0 {
        crate::transform::lemma_fold_last::<ImageReference>(v, es);
        law_image_reference_fields(v, es.drop_last());
        let d = es.drop_last();
        assert(crate::params::distinct_keys(es) ==> crate::params::distinct_keys(d));
        assert(es[es.len() - 1] == es.last());
        assert forall|k: u8| es.last().0 != k implies crate::params::key_index(es, k) == crate::params::key_index(d, k) && (crate::params::key_index(d, k) >= 0
            ==> es[crate::params::key_index(d, k)] == d[crate::params::key_index(d, k)]) by {
            crate::params::lemma_key_index_range(d, k);
        }
        assert forall|k: u8| es.last().0 == k && crate::params::distinct_keys(es) implies crate::params::key_index(d, k) < 0 by {
            crate::params::lemma_key_index_range(d, k);
            if crate::params::key_index(d, k) >= 0 {
                assert(es[crate::params::key_index(d, k)].0 == k);
            }
        }
    }
}

/// A range of images placed at a point: the image shown is picked by a value.
#[derive(Debug, PartialEq, Default)]
pub struct ImageRange {
    pub x: i32,
    pub y: i32,
    pub image_index: Option<ImgId>,
    pub images_count: Option<u32>,
}

impl View for ImageRange {
    type V = ImageRange;

    open spec fn view(&self) -> ImageRange {
        *self
    }
}

impl Transform for ImageRange {
    open spec fn spec_blank() -> ImageRange {
        ImageRange {
            x: 0i32,
            y: 0i32,
            image_index: None,
            images_count: None,
        }
    }

    open spec fn spec_apply(v: ImageRange, key: u8, vals: Seq<PValue>) -> Option<ImageRange> {
        if key == 1 {
            match spec_i32_field(vals) {
                Some(x) => Some(ImageRange {
                    x: x,
                    y: v.y,
                    image_index: v.image_index,
                    images_count: v.images_count,
                }),
                None => None,
            }
        } else if key == 2 {
            match spec_i32_field(vals) {
                Some(x) => Some(ImageRange {
                    x: v.x,
                    y: x,
                    image_index: v.image_index,
                    images_count: v.images_count,
                }),
                None => None,
            }
        } else if key == 3 {
            match spec_img_id_field(vals) {
                Some(x) => Some(ImageRange {
                    x: v.x,
                    y: v.y,
                    image_index: x,
                    images_count: v.images_count,
                }),
                None => None,
            }
        } else if key == 4 {
            match spec_u32_field(vals) {
                Some(x) => Some(ImageRange {
                    x: v.x,
                    y: v.y,
                    image_index: v.image_index,
                    images_count: x,
                }),
                None => None,
            }
        } else {
            Some(v)
        }
    }

    fn blank() -> (r: Self) {
        let r = ImageRange {
            x: 0,
            y: 0,
            image_index: None,
            images_count: None,
        };
        r
    }

    fn apply(&mut self, key: u8, vals: &Vec<Param>) -> (r: Result<(), ParseError>) {
        if key == 1 {
            transform_i32(&mut self.x, vals)
        } else if key == 2 {
            transform_i32(&mut self.y, vals)
        } else if key == 3 {
            transform_img_id(&mut self.image_index, vals)
        } else if key == 4 {
            transform_u32(&mut self.images_count, vals)
        } else {
            Ok(())
        }
    }
}

/// Filling a `ImageRange` with entries: a field whose key occurs in no entry
/// keeps its value; one whose key occurs holds the value read from the last
/// entry under it, or, for an element field, read into its value from
/// before where no key occurs twice.
pub proof fn law_image_range_fields(v: ImageRange, es: Seq<(u8, Seq<PValue>)>)
    ensures
        crate::transform::spec_fold::<ImageRange>(v, es) matches Some(r) ==> {
            &&& crate::params::key_index(es, 1) < 0 ==> r.x == v.x
            &&& crate::params::key_index(es, 1) >= 0 ==> r.x == spec_i32_field(es[crate::params::key_index(es, 1)].1).unwrap()
            &&& crate::params::key_index(es, 2) < 0 ==> r.y == v.y
            &&& crate::params::key_index(es, 2) >= 0 ==> r.y == spec_i32_field(es[crate::params::key_index(es, 2)].1).unwrap()
            &&& crate::params::key_index(es, 3) < 0 ==> r.image_index == v.image_index
            &&& crate::params::key_index(es, 3) >= 0 ==> r.image_index == spec_img_id_field(es[crate::params::key_index(es, 3)].1).unwrap()
            &&& crate::params::key_index(es, 4) < 0 ==> r.images_count == v.images_count
            &&& crate::params::key_index(es, 4) >= 0 ==> r.images_count == spec_u32_field(es[crate::params::key_index(es, 4)].1).unwrap()
        },
    decreases es.len(),
{
    if es.len() > 0 {
        crate::transform::lemma_fold_last::<ImageRange>(v, es);
        law_image_range_fields(v, es.drop_last());
        let d = es.drop_last();
        assert(crate::params::distinct_keys(es) ==> crate::params::distinct_keys(d));
        assert(es[es.len() - 1] == es.last());
        assert forall|k: u8| es.last().0 != k implies crate::params::key_index(es, k) == crate::params::key_index(d, k) && (crate::params::key_index(d, k) >= 0
            ==> es[crate::params::key_index(d, k)] == d[crate::params::key_index(d, k)]) by {
            crate::params::lemma_key_index_range(d, k);
        }
        assert forall|k: u8| es.last().0 == k && crate::params::distinct_keys(es) implies crate::params::key_index(d, k) < 0 by {
            crate::params::lemma_key_index_range(d, k);
            if crate::params::key_index(d, k) >= 0 {
                assert(es[crate::params::key_index(d, k)].0 == k);
            }
        }
    }
}

/// Where a status image is placed.
///
/// The last two fields, whose meaning is unknown, are private. A struct
/// with a private field is opaque to specifications outside its module, so
/// contracts elsewhere read the fields through `fields`, `spec_x` and
/// `spec_y`, which `lemma_status_position_fields` ties to `new` and to the
/// transform.
#[derive(Debug, PartialEq, Default)]
pub struct StatusPosition {
    pub x: i32,
    pub y: i32,
    pub alignment: Option<Alignment>,
    unknown4: Option<u32>,
    unknown5: Option<u32>,
}

impl View for StatusPosition {
    type V = StatusPosition;

    open spec fn view(&self) -> StatusPosition {
        *self
    }
}

impl Transform for StatusPosition {
    closed spec fn spec_blank() -> StatusPosition {
        StatusPosition {
            x: 0i32,
            y: 0i32,
            alignment: None,
            unknown4: None,
            unknown5: None,
        }
    }

    closed spec fn spec_apply(v: StatusPosition, key: u8, vals: Seq<PValue>) -> Option<StatusPosition> {
        if key == 1 {
            match spec_i32_field(vals) {
                Some(x) => Some(StatusPosition {
                    x: x,
                    y: v.y,
                    alignment: v.alignment,
                    unknown4: v.unknown4,
                    unknown5: v.unknown5,
                }),
                None => None,
            }
        } else if key == 2 {
            match spec_i32_field(vals) {
                Some(x) => Some(StatusPosition {
                    x: v.x,
                    y: x,
                    alignment: v.alignment,
                    unknown4: v.unknown4,
                    unknown5: v.unknown5,
                }),
                None => None,
            }
        } else if key == 3 {
            match spec_opt_alignment_field(vals) {
                Some(x) => Some(StatusPosition {
                    x: v.x,
                    y: v.y,
                    alignment: x,
                    unknown4: v.unknown4,
                    unknown5: v.unknown5,
                }),
                None => None,
            }
        } else if key == 4 {
            match spec_u32_field(vals) {
                Some(x) => Some(StatusPosition {
                    x: v.x,
                    y: v.y,
                    alignment: v.alignment,
                    unknown4: x,
                    unknown5: v.unknown5,
                }),
                None => None,
            }
        } else if key == 5 {
            match spec_u32_field(vals) {
                Some(x) => Some(StatusPosition {
                    x: v.x,
                    y: v.y,
                    alignment: v.alignment,
                    unknown4: v.unknown4,
                    unknown5: x,
                }),
                None => None,
            }
        } else {
            Some(v)
        }
    }

    fn blank() -> (r: Self) {
        let r = StatusPosition {
            x: 0,
            y: 0,
            alignment: None,
            unknown4: None,
            unknown5: None,
        };
        r
    }

    fn apply(&mut self, key: u8, vals: &Vec<Param>) -> (r: Result<(), ParseError>) {
        if key == 1 {
            transform_i32(&mut self.x, vals)
        } else if key == 2 {
            transform_i32(&mut self.y, vals)
        } else if key == 3 {
            transform_opt_alignment(&mut self.alignment, vals)
        } else if key == 4 {
            transform_u32(&mut self.unknown4, vals)
        } else if key == 5 {
            transform_u32(&mut self.unknown5, vals)
        } else {
            Ok(())
        }
    }
}


/// An image that shows whether a status is on or off.
#[derive(Debug, PartialEq, Default)]
pub struct StatusImage {
    pub coordinates: Option<StatusPosition>,
    pub on_image_index: Option<ImgId>,
    pub off_image_index: Option<ImgId>,
}

impl View for StatusImage {
    type V = StatusImage;

    open spec fn view(&self) -> StatusImage {
        *self
    }
}

impl Transform for StatusImage {
    open spec fn spec_blank() -> StatusImage {
        StatusImage {
            coordinates: None,
            on_image_index: None,
            off_image_index: None,
        }
    }

    open spec fn spec_apply(v: StatusImage, key: u8, vals: Seq<PValue>) -> Option<StatusImage> {
        if key == 1 {
            match spec_option::<StatusPosition>(v.coordinates, vals) {
                Some(x) => Some(StatusImage {
                    coordinates: x,
                    on_image_index: v.on_image_index,
                    off_image_index: v.off_image_index,
                }),
                None => None,
            }
        } else if key == 2 {
            match spec_img_id_field(vals) {
                Some(x) => Some(StatusImage {
                    coordinates: v.coordinates,
                    on_image_index: x,
                    off_image_index: v.off_image_index,
                }),
                None => None,
            }
        } else if key == 3 {
            match spec_img_id_field(vals) {
                Some(x) => Some(StatusImage {
                    coordinates: v.coordinates,
                    on_image_index: v.on_image_index,
                    off_image_index: x,
                }),
                None => None,
            }
        } else {
            Some(v)
        }
    }

    fn blank() -> (r: Self) {
        let r = StatusImage {
            coordinates: None,
            on_image_index: None,
            off_image_index: None,
        };
        r
    }

    fn apply(&mut self, key: u8, vals: &Vec<Param>) -> (r: Result<(), ParseError>) {
        if key == 1 {
            transform_option::<StatusPosition>(&mut self.coordinates, vals)
        } else if key == 2 {
            transform_img_id(&mut self.on_image_index, vals)
        } else if key == 3 {
            transform_img_id(&mut self.off_image_index, vals)
        } else {
            Ok(())
        }
    }
}

/// Filling a `StatusImage` with entries: a field whose key occurs in no entry
/// keeps its value; one whose key occurs holds the value read from the last
/// entry under it, or, for an element field, read into its value from
/// before where no key occurs twice.
pub proof fn law_status_image_fields(v: StatusImage, es: Seq<(u8, Seq<PValue>)>)
    ensures
        crate::transform::spec_fold::<StatusImage>(v, es) matches Some(r) ==> {
            &&& crate::params::key_index(es, 1) < 0 ==> r.coordinates == v.coordinates
            &&& crate::params::distinct_keys(es) && crate::params::key_index(es, 1) >= 0 ==> r.coordinates == spec_option::<StatusPosition>(v.coordinates, es[crate::params::key_index(es, 1)].1).unwrap()
            &&& crate::params::key_index(es, 2) < 0 ==> r.on_image_index == v.on_image_index
            &&& crate::params::key_index(es, 2) >= 0 ==> r.on_image_index == spec_img_id_field(es[crate::params::key_index(es, 2)].1).unwrap()
            &&& crate::params::key_index(es, 3) < 0 ==> r.off_image_index == v.off_image_index
            &&& crate::params::key_index(es, 3) >= 0 ==> r.off_image_index == spec_img_id_field(es[crate::params::key_index(es, 3)].1).unwrap()
        },
    decreases es.len(),
{
    if es.len() > 0 {
        crate::transform::lemma_fold_last::<StatusImage>(v, es);
        law_status_image_fields(v, es.drop_last());
        let d = es.drop_last();
        assert(crate::params::distinct_keys(es) ==> crate::params::distinct_keys(d));
        assert(es[es.len() - 1] == es.last());
        assert forall|k: u8| es.last().0 != k implies crate::params::key_index(es, k) == crate::params::key_index(d, k) && (crate::params::key_index(d, k) >= 0
            ==> es[crate::params::key_index(d, k)] == d[crate::params::key_index(d, k)]) by {
            crate::params::lemma_key_index_range(d, k);
        }
        assert forall|k: u8| es.last().0 == k && crate::params::distinct_keys(es) implies crate::params::key_index(d, k) < 0 by {
            crate::params::lemma_key_index_range(d, k);
            if crate::params::key_index(d, k) >= 0 {
                assert(es[crate::params::key_index(d, k)].0 == k);
            }
        }
    }
}

/// A point.
#[derive(Debug, PartialEq, Default)]
pub struct Coordinates {
    pub x: i32,
    pub y: i32,
}

impl View for Coordinates {
    type V = Coordinates;

    open spec fn view(&self) -> Coordinates {
        *self
    }
}

impl Transform for Coordinates {
    open spec fn spec_blank() -> Coordinates {
        Coordinates {
            x: 0i32,
            y: 0i32,
        }
    }

    open spec fn spec_apply(v: Coordinates, key: u8, vals: Seq<PValue>) -> Option<Coordinates> {
        if key == 1 {
            match spec_i32_field(vals) {
                Some(x) => Some(Coordinates {
                    x: x,
                    y: v.y,
                }),
                None => None,
            }
        } else if key == 2 {
            match spec_i32_field(vals) {
                Some(x) => Some(Coordinates {
                    x: v.x,
                    y: x,
                }),
                None => None,
            }
        } else {
            Some(v)
        }
    }

    fn blank() -> (r: Self) {
        let r = Coordinates {
            x: 0,
            y: 0,
        };
        r
    }

    fn apply(&mut self, key: u8, vals: &Vec<Param>) -> (r: Result<(), ParseError>) {
        if key == 1 {
            transform_i32(&mut self.x, vals)
        } else if key == 2 {
            transform_i32(&mut self.y, vals)
        } else {
            Ok(())
        }
    }
}

/// Filling a `Coordinates` with entries: a field whose key occurs in no entry
/// keeps its value; one whose key occurs holds the value read from the last
/// entry under it, or, for an element field, read into its value from
/// before where no key occurs twice.
pub proof fn law_coordinates_fields(v: Coordinates, es: Seq<(u8, Seq<PValue>)>)
    ensures
        crate::transform::spec_fold::<Coordinates>(v, es) matches Some(r) ==> {
            &&& crate::params::key_index(es, 1) < 0 ==> r.x == v.x
            &&& crate::params::key_index(es, 1) >= 0 ==> r.x == spec_i32_field(es[crate::params::key_index(es, 1)].1).unwrap()
            &&& crate::params::key_index(es, 2) < 0 ==> r.y == v.y
            &&& crate::params::key_index(es, 2) >= 0 ==> r.y == spec_i32_field(es[crate::params::key_index(es, 2)].1).unwrap()
        },
    decreases es.len(),
{
    if es.len() > 0 {
        crate::transform::lemma_fold_last::<Coordinates>(v, es);
        law_coordinates_fields(v, es.drop_last());
        let d = es.drop_last();
        assert(crate::params::distinct_keys(es) ==> crate::params::distinct_keys(d));
        assert(es[es.len() - 1] == es.last());
        assert forall|k: u8| es.last().0 != k implies crate::params::key_index(es, k) == crate::params::key_index(d, k) && (crate::params::key_index(d, k) >= 0
            ==> es[crate::params::key_index(d, k)] == d[crate::params::key_index(d, k)]) by {
            crate::params::lemma_key_index_range(d, k);
        }
        assert forall|k: u8| es.last().0 == k && crate::params::distinct_keys(es) implies crate::params::key_index(d, k) < 0 by {
            crate::params::lemma_key_index_range(d, k);
            if crate::params::key_index(d, k) >= 0 {
                assert(es[crate::params::key_index(d, k)].0 == k);
            }
        }
    }
}

/// A number drawn with digit images in a rectangle.
#[derive(Debug, PartialEq, Default)]
pub struct NumberInRect {
    pub top_left_x: i32,
    pub top_left_y: i32,
    pub bottom_right_x: i32,
    pub bottom_right_y: i32,
    pub alignment: Alignment,
    pub spacing_x: i32,
    pub spacing_y: i32,
    pub image_index: Option<ImgId>,
    pub images_count: Option<u32>,
}

impl View for NumberInRect {
    type V = NumberInRect;

    open spec fn view(&self) -> NumberInRect {
        *self
    }
}

impl Transform for NumberInRect {
    open spec fn spec_blank() -> NumberInRect {
        NumberInRect {
            top_left_x: 0i32,
            top_left_y: 0i32,
            bottom_right_x: 0i32,
            bottom_right_y: 0i32,
            alignment: Alignment::Valid(AlignmentInternal::Center),
            spacing_x: 0i32,
            spacing_y: 0i32,
            image_index: None,
            images_count: None,
        }
    }

    open spec fn spec_apply(v: NumberInRect, key: u8, vals: Seq<PValue>) -> Option<NumberInRect> {
        if key == 1 {
            match spec_i32_field(vals) {
                Some(x) => Some(NumberInRect {
                    top_left_x: x,
                    top_left_y: v.top_left_y,
                    bottom_right_x: v.bottom_right_x,
                    bottom_right_y: v.bottom_right_y,
                    alignment: v.alignment,
                    spacing_x: v.spacing_x,
                    spacing_y: v.spacing_y,
                    image_index: v.image_index,
                    images_count: v.images_count,
                }),
                None => None,
            }
        } else if key == 2 {
            match spec_i32_field(vals) {
                Some(x) => Some(NumberInRect {
                    top_left_x: v.top_left_x,
                    top_left_y: x,
                    bottom_right_x: v.bottom_right_x,
                    bottom_right_y: v.bottom_right_y,
                    alignment: v.alignment,
                    spacing_x: v.spacing_x,
                    spacing_y: v.spacing_y,
                    image_index: v.image_index,
                    images_count: v.images_count,
                }),
                None => None,
            }
        } else if key == 3 {
            match spec_i32_field(vals) {
                Some(x) => Some(NumberInRect {
                    top_left_x: v.top_left_x,
                    top_left_y: v.top_left_y,
                    bottom_right_x: x,
                    bottom_right_y: v.bottom_right_y,
                    alignment: v.alignment,
                    spacing_x: v.spacing_x,
                    spacing_y: v.spacing_y,
                    image_index: v.image_index,
                    images_count: v.images_count,
                }),
                None => None,
            }
        } else if key == 4 {
            match spec_i32_field(vals) {
                Some(x) => Some(NumberInRect {
                    top_left_x: v.top_left_x,
                    top_left_y: v.top_left_y,
                    bottom_right_x: v.bottom_right_x,
                    bottom_right_y: x,
                    alignment: v.alignment,
                    spacing_x: v.spacing_x,
                    spacing_y: v.spacing_y,
                    image_index: v.image_index,
                    images_count: v.images_count,
                }),
                None => None,
            }
        } else if key == 5 {
            match spec_alignment_field(vals) {
                Some(x) => Some(NumberInRect {
                    top_left_x: v.top_left_x,
                    top_left_y: v.top_left_y,
                    bottom_right_x: v.bottom_right_x,
                    bottom_right_y: v.bottom_right_y,
                    alignment: x,
                    spacing_x: v.spacing_x,
                    spacing_y: v.spacing_y,
                    image_index: v.image_index,
                    images_count: v.images_count,
                }),
                None => None,
            }
        } else if key == 6 {
            match spec_i32_field(vals) {
                Some(x) => Some(NumberInRect {
                    top_left_x: v.top_left_x,
                    top_left_y: v.top_left_y,
                    bottom_right_x: v.bottom_right_x,
                    bottom_right_y: v.bottom_right_y,
                    alignment: v.alignment,
                    spacing_x: x,
                    spacing_y: v.spacing_y,
                    image_index: v.image_index,
                    images_count: v.images_count,
                }),
                None => None,
            }
        } else if key == 7 {
            match spec_i32_field(vals) {
                Some(x) => Some(NumberInRect {
                    top_left_x: v.top_left_x,
                    top_left_y: v.top_left_y,
                    bottom_right_x: v.bottom_right_x,
                    bottom_right_y: v.bottom_right_y,
                    alignment: v.alignment,
                    spacing_x: v.spacing_x,
                    spacing_y: x,
                    image_index: v.image_index,
                    images_count: v.images_count,
                }),
                None => None,
            }
        } else if key == 8 {
            match spec_img_id_field(vals) {
                Some(x) => Some(NumberInRect {
                    top_left_x: v.top_left_x,
                    top_left_y: v.top_left_y,
                    bottom_right_x: v.bottom_right_x,
                    bottom_right_y: v.bottom_right_y,
                    alignment: v.alignment,
                    spacing_x: v.spacing_x,
                    spacing_y: v.spacing_y,
                    image_index: x,
                    images_count: v.images_count,
                }),
                None => None,
            }
        } else if key == 9 {
            match spec_u32_field(vals) {
                Some(x) => Some(NumberInRect {
                    top_left_x: v.top_left_x,
                    top_left_y: v.top_left_y,
                    bottom_right_x: v.bottom_right_x,
                    bottom_right_y: v.bottom_right_y,
                    alignment: v.alignment,
                    spacing_x: v.spacing_x,
                    spacing_y: v.spacing_y,
                    image_index: v.image_index,
                    images_count: x,
                }),
                None => None,
            }
        } else {
            Some(v)
        }
    }

    fn blank() -> (r: Self) {
        let r = NumberInRect {
            top_left_x: 0,
            top_left_y: 0,
            bottom_right_x: 0,
            bottom_right_y: 0,
            alignment: Alignment::Valid(AlignmentInternal::Center),
            spacing_x: 0,
            spacing_y: 0,
            image_index: None,
            images_count: None,
        };
        r
    }

    fn apply(&mut self, key: u8, vals: &Vec<Param>) -> (r: Result<(), ParseError>) {
        if key == 1 {
            transform_i32(&mut self.top_left_x, vals)
        } else if key == 2 {
            transform_i32(&mut self.top_left_y, vals)
        } else if key == 3 {
            transform_i32(&mut self.bottom_right_x, vals)
        } else if key == 4 {
            transform_i32(&mut self.bottom_right_y, vals)
        } else if key == 5 {
            transform_alignment(&mut self.alignment, vals)
        } else if key == 6 {
            transform_i32(&mut self.spacing_x, vals)
        } else if key == 7 {
            transform_i32(&mut self.spacing_y, vals)
        } else if key == 8 {
            transform_img_id(&mut self.image_index, vals)
        } else if key == 9 {
            transform_u32(&mut self.images_count, vals)
        } else {
            Ok(())
        }
    }
}

/// Filling a `NumberInRect` with entries: a field whose key occurs in no entry
/// keeps its value; one whose key occurs holds the value read from the last
/// entry under it, or, for an element field, read into its value from
/// before where no key occurs twice.
pub proof fn law_number_in_rect_fields(v: NumberInRect, es: Seq<(u8, Seq<PValue>)>)
    ensures
        crate::transform::spec_fold::<NumberInRect>(v, es) matches Some(r) ==> {
            &&& crate::params::key_index(es, 1) < 0 ==> r.top_left_x == v.top_left_x
            &&& crate::params::key_index(es, 1) >= 0 ==> r.top_left_x == spec_i32_field(es[crate::params::key_index(es, 1)].1).unwrap()
            &&& crate::params::key_index(es, 2) < 0 ==> r.top_left_y == v.top_left_y
            &&& crate::params::key_index(es, 2) >= 0 ==> r.top_left_y == spec_i32_field(es[crate::params::key_index(es, 2)].1).unwrap()
            &&& crate::params::key_index(es, 3) < 0 ==> r.bottom_right_x == v.bottom_right_x
            &&& crate::params::key_index(es, 3) >= 0 ==> r.bottom_right_x == spec_i32_field(es[crate::params::key_index(es, 3)].1).unwrap()
            &&& crate::params::key_index(es, 4) < 0 ==> r.bottom_right_y == v.bottom_right_y
            &&& crate::params::key_index(es, 4) >= 0 ==> r.bottom_right_y == spec_i32_field(es[crate::params::key_index(es, 4)].1).unwrap()
            &&& crate::params::key_index(es, 5) < 0 ==> r.alignment == v.alignment
            &&& crate::params::key_index(es, 5) >= 0 ==> r.alignment == spec_alignment_field(es[crate::params::key_index(es, 5)].1).unwrap()
            &&& crate::params::key_index(es, 6) < 0 ==> r.spacing_x == v.spacing_x
            &&& crate::params::key_index(es, 6) >= 0 ==> r.spacing_x == spec_i32_field(es[crate::params::key_index(es, 6)].1).unwrap()
            &&& crate::params::key_index(es, 7) < 0 ==> r.spacing_y == v.spacing_y
            &&& crate::params::key_index(es, 7) >= 0 ==> r.spacing_y == spec_i32_field(es[crate::params::key_index(es, 7)].1).unwrap()
            &&& crate::params::key_index(es, 8) < 0 ==> r.image_index == v.image_index
            &&& crate::params::key_index(es, 8) >= 0 ==> r.image_index == spec_img_id_field(es[crate::params::key_index(es, 8)].1).unwrap()
            &&& crate::params::key_index(es, 9) < 0 ==> r.images_count == v.images_count
            &&& crate::params::key_index(es, 9) >= 0 ==> r.images_count == spec_u32_field(es[crate::params::key_index(es, 9)].1).unwrap()
        },
    decreases es.len(),
{
    if es.len() > 0 {
        crate::transform::lemma_fold_last::<NumberInRect>(v, es);
        law_number_in_rect_fields(v, es.drop_last());
        let d = es.drop_last();
        assert(crate::params::distinct_keys(es) ==> crate::params::distinct_keys(d));
        assert(es[es.len() - 1] == es.last());
        assert forall|k: u8| es.last().0 != k implies crate::params::key_index(es, k) == crate::params::key_index(d, k) && (crate::params::key_index(d, k) >= 0
            ==> es[crate::params::key_index(d, k)] == d[crate::params::key_index(d, k)]) by {
            crate::params::lemma_key_index_range(d, k);
        }
        assert forall|k: u8| es.last().0 == k && crate::params::distinct_keys(es) implies crate::params::key_index(d, k) < 0 by {
            crate::params::lemma_key_index_range(d, k);
            if crate::params::key_index(d, k) >= 0 {
                assert(es[crate::params::key_index(d, k)].0 == k);
            }
        }
    }
}

/// A temperature: a number with a minus sign and a suffix.
#[derive(Debug, PartialEq, Default)]
pub struct TemperatureType {
    pub number: Option<NumberInRect>,
    pub minus_image_index: Option<ImgId>,
    pub suffix_image_index: Option<ImgId>,
}

impl View for TemperatureType {
    type V = TemperatureType;

    open spec fn view(&self) -> TemperatureType {
        *self
    }
}

impl Transform for TemperatureType {
    open spec fn spec_blank() -> TemperatureType {
        TemperatureType {
            number: None,
            minus_image_index: None,
            suffix_image_index: None,
        }
    }

    open spec fn spec_apply(v: TemperatureType, key: u8, vals: Seq<PValue>) -> Option<TemperatureType> {
        if key == 1 {
            match spec_option::<NumberInRect>(v.number, vals) {
                Some(x) => Some(TemperatureType {
                    number: x,
                    minus_image_index: v.minus_image_index,
                    suffix_image_index: v.suffix_image_index,
                }),
                None => None,
            }
        } else if key == 2 {
            match spec_img_id_field(vals) {
                Some(x) => Some(TemperatureType {
                    number: v.number,
                    minus_image_index: x,
                    suffix_image_index: v.suffix_image_index,
                }),
                None => None,
            }
        } else if key == 3 {
            match spec_img_id_field(vals) {
                Some(x) => Some(TemperatureType {
                    number: v.number,
                    minus_image_index: v.minus_image_index,
                    suffix_image_index: x,
                }),
                None => None,
            }
        } else {
            Some(v)
        }
    }

    fn blank() -> (r: Self) {
        let r = TemperatureType {
            number: None,
            minus_image_index: None,
            suffix_image_index: None,
        };
        r
    }

    fn apply(&mut self, key: u8, vals: &Vec<Param>) -> (r: Result<(), ParseError>) {
        if key == 1 {
            transform_option::<NumberInRect>(&mut self.number, vals)
        } else if key == 2 {
            transform_img_id(&mut self.minus_image_index, vals)
        } else if key == 3 {
            transform_img_id(&mut self.suffix_image_index, vals)
        } else {
            Ok(())
        }
    }
}

/// Filling a `TemperatureType` with entries: a field whose key occurs in no entry
/// keeps its value; one whose key occurs holds the value read from the last
/// entry under it, or, for an element field, read into its value from
/// before where no key occurs twice.
pub proof fn law_temperature_type_fields(v: TemperatureType, es: Seq<(u8, Seq<PValue>)>)
    ensures
        crate::transform::spec_fold::<TemperatureType>(v, es) matches Some(r) ==> {
            &&& crate::params::key_index(es, 1) < 0 ==> r.number == v.number
            &&& crate::params::distinct_keys(es) && crate::params::key_index(es, 1) >= 0 ==> r.number == spec_option::<NumberInRect>(v.number, es[crate::params::key_index(es, 1)].1).unwrap()
            &&& crate::params::key_index(es, 2) < 0 ==> r.minus_image_index == v.minus_image_index
            &&& crate::params::key_index(es, 2) >= 0 ==> r.minus_image_index == spec_img_id_field(es[crate::params::key_index(es, 2)].1).unwrap()
            &&& crate::params::key_index(es, 3) < 0 ==> r.suffix_image_index == v.suffix_image_index
            &&& crate::params::key_index(es, 3) >= 0 ==> r.suffix_image_index == spec_img_id_field(es[crate::params::key_index(es, 3)].1).unwrap()
        },
    decreases es.len(),
{
    if es.len() > 0 {
        crate::transform::lemma_fold_last::<TemperatureType>(v, es);
        law_temperature_type_fields(v, es.drop_last());
        let d = es.drop_last();
        assert(crate::params::distinct_keys(es) ==> crate::params::distinct_keys(d));
        assert(es[es.len() - 1] == es.last());
        assert forall|k: u8| es.last().0 != k implies crate::params::key_index(es, k) == crate::params::key_index(d, k) && (crate::params::key_index(d, k) >= 0
            ==> es[crate::params::key_index(d, k)] == d[crate::params::key_index(d, k)]) by {
            crate::params::lemma_key_index_range(d, k);
        }
        assert forall|k: u8| es.last().0 == k && crate::params::distinct_keys(es) implies crate::params::key_index(d, k) < 0 by {
            crate::params::lemma_key_index_range(d, k);
            if crate::params::key_index(d, k) >= 0 {
                assert(es[crate::params::key_index(d, k)].0 == k);
            }
        }
    }
}

/// A shape drawn as a polygon, such as the hand of an analog dial.
#[derive(Debug, PartialEq, Default)]
pub struct VectorShape {
    pub only_border: Option<bool>,
    pub color: Option<Color>,
    pub center: Option<Coordinates>,
    pub shape: Vec<Coordinates>,
    pub center_image: Option<ImageReference>,
}

/// The mathematical value of a `VectorShape`.
pub struct VectorShapeView {
    pub only_border: Option<bool>,
    pub color: Option<Color>,
    pub center: Option<Coordinates>,
    pub shape: Seq<Coordinates>,
    pub center_image: Option<ImageReference>,
}

impl View for VectorShape {
    type V = VectorShapeView;

    open spec fn view(&self) -> VectorShapeView {
        VectorShapeView {
            only_border: self.only_border,
            color: self.color,
            center: opt_view(self.center),
            shape: seq_view(self.shape@),
            center_image: opt_view(self.center_image),
        }
    }
}

impl Transform for VectorShape {
    open spec fn spec_blank() -> VectorShapeView {
        VectorShapeView {
            only_border: None,
            color: None,
            center: None,
            shape: Seq::empty(),
            center_image: None,
        }
    }

    open spec fn spec_apply(v: VectorShapeView, key: u8, vals: Seq<PValue>) -> Option<VectorShapeView> {
        if key == 1 {
            match spec_bool_field(vals) {
                Some(x) => Some(VectorShapeView {
                    only_border: x,
                    color: v.color,
                    center: v.center,
                    shape: v.shape,
                    center_image: v.center_image,
                }),
                None => None,
            }
        } else if key == 2 {
            match spec_color_field(vals) {
                Some(x) => Some(VectorShapeView {
                    only_border: v.only_border,
                    color: x,
                    center: v.center,
                    shape: v.shape,
                    center_image: v.center_image,
                }),
                None => None,
            }
        } else if key == 3 {
            match spec_option::<Coordinates>(v.center, vals) {
                Some(x) => Some(VectorShapeView {
                    only_border: v.only_border,
                    color: v.color,
                    center: x,
                    shape: v.shape,
                    center_image: v.center_image,
                }),
                None => None,
            }
        } else if key == 4 {
            match spec_list::<Coordinates>(v.shape, vals) {
                Some(x) => Some(VectorShapeView {
                    only_border: v.only_border,
                    color: v.color,
                    center: v.center,
                    shape: x,
                    center_image: v.center_image,
                }),
                None => None,
            }
        } else if key == 5 {
            match spec_option::<ImageReference>(v.center_image, vals) {
                Some(x) => Some(VectorShapeView {
                    only_border: v.only_border,
                    color: v.color,
                    center: v.center,
                    shape: v.shape,
                    center_image: x,
                }),
                None => None,
            }
        } else {
            Some(v)
        }
    }

    fn blank() -> (r: Self) {
        let r = VectorShape {
            only_border: None,
            color: None,
            center: None,
            shape: Vec::new(),
            center_image: None,
        };
        assert(seq_view(r.shape@) =~= Seq::<Coordinates>::empty());
        r
    }

    fn apply(&mut self, key: u8, vals: &Vec<Param>) -> (r: Result<(), ParseError>) {
        if key == 1 {
            transform_bool(&mut self.only_border, vals)
        } else if key == 2 {
            transform_color(&mut self.color, vals)
        } else if key == 3 {
            transform_option::<Coordinates>(&mut self.center, vals)
        } else if key == 4 {
            transform_list::<Coordinates>(&mut self.shape, vals)
        } else if key == 5 {
            transform_option::<ImageReference>(&mut self.center_image, vals)
        } else {
            Ok(())
        }
    }
}

/// Filling a `VectorShape` with entries: a field whose key occurs in no entry
/// keeps its value; one whose key occurs holds the value read from the last
/// entry under it, or, for an element field, read into its value from
/// before where no key occurs twice.
pub proof fn law_vector_shape_fields(v: VectorShapeView, es: Seq<(u8, Seq<PValue>)>)
    ensures
        crate::transform::spec_fold::<VectorShape>(v, es) matches Some(r) ==> {
            &&& crate::params::key_index(es, 1) < 0 ==> r.only_border == v.only_border
            &&& crate::params::key_index(es, 1) >= 0 ==> r.only_border == spec_bool_field(es[crate::params::key_index(es, 1)].1).unwrap()
            &&& crate::params::key_index(es, 2) < 0 ==> r.color == v.color
            &&& crate::params::key_index(es, 2) >= 0 ==> r.color == spec_color_field(es[crate::params::key_index(es, 2)].1).unwrap()
            &&& crate::params::key_index(es, 3) < 0 ==> r.center == v.center
            &&& crate::params::distinct_keys(es) && crate::params::key_index(es, 3) >= 0 ==> r.center == spec_option::<Coordinates>(v.center, es[crate::params::key_index(es, 3)].1).unwrap()
            &&& crate::params::key_index(es, 4) < 0 ==> r.shape == v.shape
            &&& crate::params::distinct_keys(es) && crate::params::key_index(es, 4) >= 0 ==> r.shape == spec_list::<Coordinates>(v.shape, es[crate::params::key_index(es, 4)].1).unwrap()
            &&& crate::params::key_index(es, 5) < 0 ==> r.center_image == v.center_image
            &&& crate::params::distinct_keys(es) && crate::params::key_index(es, 5) >= 0 ==> r.center_image == spec_option::<ImageReference>(v.center_image, es[crate::params::key_index(es, 5)].1).unwrap()
        },
    decreases es.len(),
{
    if es.len() > 0 {
        crate::transform::lemma_fold_last::<VectorShape>(v, es);
        law_vector_shape_fields(v, es.drop_last());
        let d = es.drop_last();
        assert(crate::params::distinct_keys(es) ==> crate::params::distinct_keys(d));
        assert(es[es.len() - 1] == es.last());
        assert forall|k: u8| es.last().0 != k implies crate::params::key_index(es, k) == crate::params::key_index(d, k) && (crate::params::key_index(d, k) >= 0
            ==> es[crate::params::key_index(d, k)] == d[crate::params::key_index(d, k)]) by {
            crate::params::lemma_key_index_range(d, k);
        }
        assert forall|k: u8| es.last().0 == k && crate::params::distinct_keys(es) implies crate::params::key_index(d, k) < 0 by {
            crate::params::lemma_key_index_range(d, k);
            if crate::params::key_index(d, k) >= 0 {
                assert(es[crate::params::key_index(d, k)].0 == k);
            }
        }
    }
}

impl StatusPosition {
    /// The horizontal coordinate.
    pub closed spec fn spec_x(self) -> i32 {
        self.x
    }

    /// The vertical coordinate.
    pub closed spec fn spec_y(self) -> i32 {
        self.y
    }

    /// See `spec_x`.
    pub fn get_x(&self) -> (r: i32)
        ensures
            r == self.spec_x(),
    {
        self.x
    }

    /// See `spec_y`.
    pub fn get_y(&self) -> (r: i32)
        ensures
            r == self.spec_y(),
    {
        self.y
    }

    /// The fourth field, whose meaning is not known.
    pub closed spec fn spec_unknown4(self) -> Option<u32> {
        self.unknown4
    }

    /// The fifth field, whose meaning is not known.
    pub closed spec fn spec_unknown5(self) -> Option<u32> {
        self.unknown5
    }

    /// See `spec_unknown4`.
    pub fn get_unknown4(&self) -> (r: Option<u32>)
        ensures
            r == self.spec_unknown4(),
    {
        self.unknown4
    }

    /// See `spec_unknown5`.
    pub fn get_unknown5(&self) -> (r: Option<u32>)
        ensures
            r == self.spec_unknown5(),
    {
        self.unknown5
    }
}

impl StatusPosition {
    /// The fields: the coordinates, the alignment, and the fourth and fifth
    /// fields, whose meaning is not known.
    pub closed spec fn fields(self) -> (i32, i32, Option<Alignment>, Option<u32>, Option<u32>) {
        (self.x, self.y, self.alignment, self.unknown4, self.unknown5)
    }

    /// A status position with the given fields.
    pub fn new(
        x: i32,
        y: i32,
        alignment: Option<Alignment>,
        unknown4: Option<u32>,
        unknown5: Option<u32>,
    ) -> (r: StatusPosition)
        ensures
            r.fields() == (x, y, alignment, unknown4, unknown5),
    {
        StatusPosition { x, y, alignment, unknown4, unknown5 }
    }
}

/// A status position is its fields; its getters give them; before any
/// parameter all are 0 or none; keys 1 to 5 fill the coordinates, the
/// alignment and the fields of unknown meaning; other keys leave it as it was.
pub proof fn lemma_status_position_fields(v: StatusPosition, w: StatusPosition, key: u8, vals: Seq<PValue>)
    ensures
        v.fields() == w.fields() ==> v == w,
        v.spec_x() == v.fields().0 && v.spec_y() == v.fields().1,
        v.spec_unknown4() == v.fields().3 && v.spec_unknown5() == v.fields().4,
        <StatusPosition as Transform>::spec_blank().fields() == (0i32, 0i32, None::<Alignment>, None::<u32>, None::<u32>),
        key == 1 ==> match spec_i32_field(vals) {
            Some(x) => <StatusPosition as Transform>::spec_apply(v, key, vals) matches Some(r)
                && r.fields() == (x, v.fields().1, v.fields().2, v.fields().3, v.fields().4),
            None => <StatusPosition as Transform>::spec_apply(v, key, vals) is None,
        },
        key == 2 ==> match spec_i32_field(vals) {
            Some(x) => <StatusPosition as Transform>::spec_apply(v, key, vals) matches Some(r)
                && r.fields() == (v.fields().0, x, v.fields().2, v.fields().3, v.fields().4),
            None => <StatusPosition as Transform>::spec_apply(v, key, vals) is None,
        },
        key == 3 ==> match spec_opt_alignment_field(vals) {
            Some(x) => <StatusPosition as Transform>::spec_apply(v, key, vals) matches Some(r)
                && r.fields() == (v.fields().0, v.fields().1, x, v.fields().3, v.fields().4),
            None => <StatusPosition as Transform>::spec_apply(v, key, vals) is None,
        },
        key == 4 ==> match spec_u32_field(vals) {
            Some(x) => <StatusPosition as Transform>::spec_apply(v, key, vals) matches Some(r)
                && r.fields() == (v.fields().0, v.fields().1, v.fields().2, x, v.fields().4),
            None => <StatusPosition as Transform>::spec_apply(v, key, vals) is None,
        },
        key == 5 ==> match spec_u32_field(vals) {
            Some(x) => <StatusPosition as Transform>::spec_apply(v, key, vals) matches Some(r)
                && r.fields() == (v.fields().0, v.fields().1, v.fields().2, v.fields().3, x),
            None => <StatusPosition as Transform>::spec_apply(v, key, vals) is None,
        },
        !(1 <= key <= 5) ==> <StatusPosition as Transform>::spec_apply(v, key, vals) == Some(v),
{
}


} // verus!
