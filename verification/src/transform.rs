use vstd::prelude::*;
use crate::bytes::ParseError;
use crate::params::{Param, PValue, values_model, lemma_params_model_index};
use crate::common::{ImgId, Alignment, Color, alignment_of, color_of};

verus! {

/// The view of an optional value.
pub open spec fn opt_view<T: View>(o: Option<T>) -> Option<T::V> {
    match o {
        Some(t) => Some(t@),
        None => None,
    }
}

/// The view of a sequence of values.
pub open spec fn seq_view<T: View>(s: Seq<T>) -> Seq<T::V> {
    s.map_values(|t: T| t@)
}

/// An element of a watchface description that is filled from a list of
/// parameters: each parameter is applied under its key, keys that the
/// element does not know are passed over.
pub trait Transform: View + Sized {
    /// The element before any parameter is applied.
    spec fn spec_blank() -> Self::V;

    /// `v` with the values `vals` read under `key` applied, or `None` where
    /// they do not fit the field of that key.
    spec fn spec_apply(v: Self::V, key: u8, vals: Seq<PValue>) -> Option<Self::V>;

    /// Makes the element before any parameter is applied.
    fn blank() -> (r: Self)
        ensures
            r@ == Self::spec_blank(),
    ;

    /// Applies the values `vals` read under `key`.
    fn apply(&mut self, key: u8, vals: &Vec<Param>) -> (r: Result<(), ParseError>)
        ensures
            match Self::spec_apply(old(self)@, key, values_model(vals@)) {
                Some(v) => r is Ok && final(self)@ == v,
                None => r == Err::<(), ParseError>(ParseError::Malformed),
            },
    ;
}

/// `v` with the entries `es` applied in order, or `None` where one does not fit.
pub open spec fn spec_fold<T: Transform>(v: T::V, es: Seq<(u8, Seq<PValue>)>) -> Option<T::V>
    decreases es.len(),
{
    if es.len() == 0 {
        Some(v)
    } else {
        match T::spec_apply(v, es[0].0, es[0].1) {
            Some(v2) => spec_fold::<T>(v2, es.drop_first()),
            None => None,
        }
    }
}

/// Applying entries in order is applying all but the last, then the last.
pub proof fn lemma_fold_last<T: Transform>(v: T::V, es: Seq<(u8, Seq<PValue>)>)
    requires
        es.len() > 0,
    ensures
        spec_fold::<T>(v, es) == match spec_fold::<T>(v, es.drop_last()) {
            Some(v1) => T::spec_apply(v1, es.last().0, es.last().1),
            None => None,
        },
    decreases es.len(),
{
    if es.len() == 1 {
        assert(es.drop_last() =~= Seq::<(u8, Seq<PValue>)>::empty());
        assert(es.drop_first() =~= Seq::<(u8, Seq<PValue>)>::empty());
    } else {
        assert(es.drop_last()[0] == es[0]);
        assert(es.drop_last().drop_first() =~= es.drop_first().drop_last());
        if let Some(v2) = T::spec_apply(v, es[0].0, es[0].1) {
            lemma_fold_last::<T>(v2, es.drop_first());
        }
    }
}

/// The number that the first of `vals` holds.
pub open spec fn first_number(vals: Seq<PValue>) -> Option<i64> {
    if vals.len() > 0 {
        match vals[0] {
            PValue::Number(n) => Some(n),
            _ => None,
        }
    } else {
        None
    }
}

/// The child parameters that the first of `vals` holds.
pub open spec fn first_child(vals: Seq<PValue>) -> Option<Seq<(u8, Seq<PValue>)>> {
    if vals.len() > 0 {
        match vals[0] {
            PValue::Child(es) => Some(es),
            _ => None,
        }
    } else {
        None
    }
}

/// An optional element after the values `vals`: the first value must hold
/// child parameters, which are applied to the element (made blank where
/// there was none).
pub open spec fn spec_option<T: Transform>(cur: Option<T::V>, vals: Seq<PValue>) -> Option<Option<T::V>> {
    match first_child(vals) {
        Some(es) => {
            let base = match cur {
                Some(v) => v,
                None => T::spec_blank(),
            };
            match spec_fold::<T>(base, es) {
                Some(v) => Some(Some(v)),
                None => None,
            }
        },
        None => None,
    }
}

/// The element that one value makes: it must hold child parameters, which
/// are applied to a blank element.
pub open spec fn spec_element<T: Transform>(p: PValue) -> Option<T::V> {
    match p {
        PValue::Child(es) => spec_fold::<T>(T::spec_blank(), es),
        _ => None,
    }
}

/// The elements that `vals` make, one per value, in order.
pub open spec fn spec_elements<T: Transform>(vals: Seq<PValue>) -> Option<Seq<T::V>>
    decreases vals.len(),
{
    if vals.len() == 0 {
        Some(Seq::empty())
    } else {
        match (spec_elements::<T>(vals.drop_last()), spec_element::<T>(vals.last())) {
            (Some(s), Some(e)) => Some(s.push(e)),
            _ => None,
        }
    }
}

/// A list of elements after the values `vals`: one element per value added
/// at its end.
pub open spec fn spec_list<T: Transform>(cur: Seq<T::V>, vals: Seq<PValue>) -> Option<Seq<T::V>> {
    match spec_elements::<T>(vals) {
        Some(s) => Some(cur + s),
        None => None,
    }
}

/// A number field after the values `vals`: the first value must be a number.
pub open spec fn spec_i32_field(vals: Seq<PValue>) -> Option<i32> {
    match first_number(vals) {
        Some(n) => Some(n as i32),
        None => None,
    }
}

/// See `spec_i32_field`.
pub open spec fn spec_usize_field(vals: Seq<PValue>) -> Option<usize> {
    match first_number(vals) {
        Some(n) => Some(n as usize),
        None => None,
    }
}

/// See `spec_i32_field`.
pub open spec fn spec_u32_field(vals: Seq<PValue>) -> Option<Option<u32>> {
    match first_number(vals) {
        Some(n) => Some(Some(n as u32)),
        None => None,
    }
}

/// A flag: the first value must be a number, the flag is set where it is not 0.
pub open spec fn spec_bool_field(vals: Seq<PValue>) -> Option<Option<bool>> {
    match first_number(vals) {
        Some(n) => Some(Some(n != 0)),
        None => None,
    }
}

/// A flag read from the file is set by any number but 0 and cleared by 0;
/// anything else in first place, or no value at all, is malformed.
pub proof fn law_flag_field(vals: Seq<PValue>)
    ensures
        vals.len() > 0 ==> (vals[0] matches PValue::Number(n) ==> {
            &&& n != 0 ==> spec_bool_field(vals) == Some(Some(true))
            &&& n == 0 ==> spec_bool_field(vals) == Some(Some(false))
        }),
        !(vals.len() > 0 && vals[0] is Number) ==> spec_bool_field(vals) is None,
{
}

/// An image index: the first value must be a number.
pub open spec fn spec_img_id_field(vals: Seq<PValue>) -> Option<Option<ImgId>> {
    match first_number(vals) {
        Some(n) => Some(Some(ImgId(n as u32))),
        None => None,
    }
}

/// An alignment: the first value must be the number of an alignment.
pub open spec fn spec_alignment_field(vals: Seq<PValue>) -> Option<Alignment> {
    match first_number(vals) {
        Some(n) => alignment_of(n),
        None => None,
    }
}

/// See `spec_alignment_field`.
pub open spec fn spec_opt_alignment_field(vals: Seq<PValue>) -> Option<Option<Alignment>> {
    match spec_alignment_field(vals) {
        Some(a) => Some(Some(a)),
        None => None,
    }
}

/// A colour: the first value must be a number, read as in `color_of`.
pub open spec fn spec_color_field(vals: Seq<PValue>) -> Option<Option<Color>> {
    match first_number(vals) {
        Some(n) => Some(Some(color_of(n))),
        None => None,
    }
}

fn first_number_of(vals: &Vec<Param>) -> (r: Result<i64, ParseError>)
    ensures
        match first_number(values_model(vals@)) {
            Some(n) => r == Ok::<i64, ParseError>(n),
            None => r == Err::<i64, ParseError>(ParseError::Malformed),
        },
{
    if vals.len() == 0 {
        return Err(ParseError::Malformed);
    }
    match &vals[0] {
        Param::Number(n) => Ok(*n),
        _ => Err(ParseError::Malformed),
    }
}

/// Sets a number field from `vals`.
pub fn transform_i32(slot: &mut i32, vals: &Vec<Param>) -> (r: Result<(), ParseError>)
    ensures
        match spec_i32_field(values_model(vals@)) {
            Some(v) => r is Ok && *final(slot) == v,
            None => r == Err::<(), ParseError>(ParseError::Malformed),
        },
{
    let n = first_number_of(vals)?;
    *slot = n as i32;
    Ok(())
}

/// Sets a size or an offset from `vals`.
pub fn transform_usize(slot: &mut usize, vals: &Vec<Param>) -> (r: Result<(), ParseError>)
    ensures
        match spec_usize_field(values_model(vals@)) {
            Some(v) => r is Ok && *final(slot) == v,
            None => r == Err::<(), ParseError>(ParseError::Malformed),
        },
{
    let n = first_number_of(vals)?;
    *slot = n as usize;
    Ok(())
}

/// Sets an optional number field from `vals`.
pub fn transform_u32(slot: &mut Option<u32>, vals: &Vec<Param>) -> (r: Result<(), ParseError>)
    ensures
        match spec_u32_field(values_model(vals@)) {
            Some(v) => r is Ok && *final(slot) == v,
            None => r == Err::<(), ParseError>(ParseError::Malformed),
        },
{
    let n = first_number_of(vals)?;
    *slot = Some(n as u32);
    Ok(())
}

/// Sets an optional flag from `vals`.
pub fn transform_bool(slot: &mut Option<bool>, vals: &Vec<Param>) -> (r: Result<(), ParseError>)
    ensures
        match spec_bool_field(values_model(vals@)) {
            Some(v) => r is Ok && *final(slot) == v,
            None => r == Err::<(), ParseError>(ParseError::Malformed),
        },
        vals@.len() > 0 ==> (vals@[0] matches Param::Number(n) ==> r is Ok && *final(slot) == Some(n != 0)),
{
    let n = first_number_of(vals)?;
    *slot = Some(n != 0);
    Ok(())
}

/// Sets an optional image index from `vals`.
pub fn transform_img_id(slot: &mut Option<ImgId>, vals: &Vec<Param>) -> (r: Result<(), ParseError>)
    ensures
        match spec_img_id_field(values_model(vals@)) {
            Some(v) => r is Ok && *final(slot) == v,
            None => r == Err::<(), ParseError>(ParseError::Malformed),
        },
{
    let n = first_number_of(vals)?;
    *slot = Some(ImgId(n as u32));
    Ok(())
}

/// Sets an alignment from `vals`.
pub fn transform_alignment(slot: &mut Alignment, vals: &Vec<Param>) -> (r: Result<(), ParseError>)
    ensures
        match spec_alignment_field(values_model(vals@)) {
            Some(v) => r is Ok && *final(slot) == v,
            None => r == Err::<(), ParseError>(ParseError::Malformed),
        },
{
    let n = first_number_of(vals)?;
    match Alignment::try_from(n) {
        Ok(a) => {
            *slot = a;
            Ok(())
        },
        Err(_) => Err(ParseError::Malformed),
    }
}

/// Sets an optional alignment from `vals`.
pub fn transform_opt_alignment(slot: &mut Option<Alignment>, vals: &Vec<Param>) -> (r: Result<(), ParseError>)
    ensures
        match spec_opt_alignment_field(values_model(vals@)) {
            Some(v) => r is Ok && *final(slot) == v,
            None => r == Err::<(), ParseError>(ParseError::Malformed),
        },
{
    let n = first_number_of(vals)?;
    match Alignment::try_from(n) {
        Ok(a) => {
            *slot = Some(a);
            Ok(())
        },
        Err(_) => Err(ParseError::Malformed),
    }
}

/// Sets an optional colour from `vals`.
pub fn transform_color(slot: &mut Option<Color>, vals: &Vec<Param>) -> (r: Result<(), ParseError>)
    ensures
        match spec_color_field(values_model(vals@)) {
            Some(v) => r is Ok && *final(slot) == v,
            None => r == Err::<(), ParseError>(ParseError::Malformed),
        },
{
    let n = first_number_of(vals)?;
    *slot = Some(Color::from_number(n));
    Ok(())
}

/// Applies the child parameters `ps` in order to `v`.
fn apply_all<T: Transform>(v: &mut T, ps: &crate::params::Params) -> (r: Result<(), ParseError>)
    ensures
        match spec_fold::<T>(old(v)@, ps.model()) {
            Some(w) => r is Ok && final(v)@ == w,
            None => r == Err::<(), ParseError>(ParseError::Malformed),
        },
{
    let ghost es = ps.model();
    let ghost start = v@;
    let n = ps.entries.len();
    let mut i: usize = 0;
    assert(es.skip(0) =~= es);
    while i < n
        invariant
            i <= n,
            n == ps.entries@.len(),
            es == ps.model(),
            es.len() == n,
            spec_fold::<T>(start, es) == spec_fold::<T>(v@, es.skip(i as int)),
            start == old(v)@,
        decreases n - i,
    {
        let e = &ps.entries[i];
        proof {
            lemma_params_model_index(ps, i as int);
            assert(es.skip(i as int)[0] == es[i as int]);
            assert(es.skip(i as int).drop_first() =~= es.skip(i + 1));
        }
        match v.apply(e.key, &e.values) {
            Ok(()) => {},
            Err(err) => {
                return Err(err);
            },
        }
        i = i + 1;
    }
    Ok(())
}

/// Fills an optional element from `vals`: the first value must hold child
/// parameters, which are applied to the element, made blank where there
/// was none.
pub fn transform_option<T: Transform>(slot: &mut Option<T>, vals: &Vec<Param>) -> (r: Result<(), ParseError>)
    ensures
        match spec_option::<T>(opt_view(*old(slot)), values_model(vals@)) {
            Some(v) => r is Ok && opt_view(*final(slot)) == v,
            None => r == Err::<(), ParseError>(ParseError::Malformed),
        },
{
    let mut inner = match slot.take() {
        Some(t) => t,
        None => T::blank(),
    };
    if vals.len() == 0 {
        return Err(ParseError::Malformed);
    }
    let child = match &vals[0] {
        Param::Child(ps) => ps,
        _ => {
            return Err(ParseError::Malformed);
        },
    };
    apply_all(&mut inner, child)?;
    *slot = Some(inner);
    Ok(())
}

/// Adds one element to a list per value of `vals`: each must hold child
/// parameters, which are applied to a blank element.
pub fn transform_list<T: Transform>(slot: &mut Vec<T>, vals: &Vec<Param>) -> (r: Result<(), ParseError>)
    ensures
        match spec_list::<T>(seq_view(old(slot)@), values_model(vals@)) {
            Some(v) => r is Ok && seq_view(final(slot)@) == v,
            None => r == Err::<(), ParseError>(ParseError::Malformed),
        },
{
    let ghost vm = values_model(vals@);
    let ghost start = seq_view(slot@);
    let n = vals.len();
    let mut i: usize = 0;
    assert(vm.take(0) =~= Seq::<PValue>::empty());
    assert(seq_view(slot@) =~= start + Seq::<T::V>::empty());
    while i < n
        invariant
            i <= n,
            n == vals@.len(),
            vm == values_model(vals@),
            start == seq_view(old(slot)@),
            spec_elements::<T>(vm.take(i as int)) matches Some(s) && seq_view(slot@) == start + s,
        decreases n - i,
    {
        let mut element = T::blank();
        let ghost before = seq_view(slot@);
        proof {
            assert(vm.take(i + 1).drop_last() =~= vm.take(i as int));
            assert(vm.take(i + 1).last() == vals@[i as int].model());
        }
        match &vals[i] {
            Param::Child(ps) => {
                match apply_all(&mut element, ps) {
                    Ok(()) => {},
                    Err(e) => {
                        proof {
                            lemma_elements_stop::<T>(vm, (i + 1) as int);
                        }
                        return Err(e);
                    },
                }
            },
            _ => {
                proof {
                    lemma_elements_stop::<T>(vm, (i + 1) as int);
                }
                return Err(ParseError::Malformed);
            },
        }
        slot.push(element);
        assert(seq_view(slot@) =~= before.push(element@));
        i = i + 1;
    }
    assert(vm.take(n as int) =~= vm);
    Ok(())
}

proof fn lemma_elements_stop<T: Transform>(vm: Seq<PValue>, k: int)
    requires
        0 < k <= vm.len(),
        spec_elements::<T>(vm.take(k)) is None,
    ensures
        spec_elements::<T>(vm) is None,
    decreases vm.len() - k,
{
    if k < vm.len() {
        assert(vm.take(k + 1).drop_last() =~= vm.take(k));
        lemma_elements_stop::<T>(vm, k + 1);
    } else {
        assert(vm.take(k) =~= vm);
    }
}

} // verus!
