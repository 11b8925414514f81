use vstd::prelude::*;
use crate::common::{ImgId, ImageType, ImageWithCoords, Decimal, PreviewError, PreviewParams, HandKind};
use crate::rounding::{progress_position, progress_position_u128, saturate_u32};
use crate::image::Image;
use crate::elements::{ImageReference, ImageRange, NumberInRect, TemperatureType, VectorShape};
use crate::miband::{
    MiBandParams, Background, Time, TimeNumbers, Activity, Date, MonthAndDayAndYear, Separate,
    OneLine, DayAmPm, Status, Weather, Icon, Temperature, Humidity, Wind, UVIndex, StepsProgress,
    Battery, BatteryText, Linear, AnalogDialFace, Other, Animation, HeartProgress, WeekDaysIcons,
    Alarm, Steps, Pulse, Calories, PAI, Distance,
};
use crate::parser::Watchface;
use crate::preview::{
    id_at, outcome, number_images, number_images_into, delimited_images,
    numbers_with_delimiters_get_images, status_image_items, status_image_get_images,
    decimal_of_u32, decimal_of_i32,
};

verus! {

/// The image that `r` refers to, where it refers to one.
pub open spec fn reference_items(r: Option<ImageReference>) -> Seq<ImageWithCoords> {
    match r {
        Some(i) => match i.image_index {
            Some(id) => seq![id_at(i.x, i.y, id.0)],
            None => Seq::empty(),
        },
        None => Seq::empty(),
    }
}

fn image_reference_into(out: &mut Vec<ImageWithCoords>, r: &Option<ImageReference>)
    ensures
        final(out)@ == old(out)@ + reference_items(*r),
{
    if let Some(image) = r {
        if let Some(image_index) = &image.image_index {
            out.push(
                ImageWithCoords { x: image.x, y: image.y, image_type: ImageType::Id(ImgId(image_index.0)) },
            );
        }
    }
    assert(out@ =~= old(out)@ + reference_items(*r));
}

/// `acc` followed by the image `value` of the range `r`, counted from its
/// first image, where both are given; `None` where the index overflows `u32`.
pub open spec fn range_items(
    acc: Seq<ImageWithCoords>,
    r: Option<ImageRange>,
    value: Option<u32>,
) -> Option<Seq<ImageWithCoords>> {
    match r {
        Some(range) => match range.image_index {
            Some(id) => match value {
                Some(v) => if id.0 + v <= u32::MAX {
                    Some(acc.push(id_at(range.x, range.y, (id.0 + v) as u32)))
                } else {
                    None
                },
                None => Some(acc),
            },
            None => Some(acc),
        },
        None => Some(acc),
    }
}

fn image_range_into(out: &mut Vec<ImageWithCoords>, r: &Option<ImageRange>, value: Option<u32>) -> (res:
    Result<(), PreviewError>)
    ensures
        outcome(res, final(out)@, range_items(old(out)@, *r, value)),
{
    if let Some(range) = r {
        if let Some(image_index) = &range.image_index {
            if let Some(v) = value {
                match image_index.0.checked_add(v) {
                    Some(id) => {
                        out.push(
                            ImageWithCoords { x: range.x, y: range.y, image_type: ImageType::Id(ImgId(id)) },
                        );
                    },
                    None => {
                        return Err(PreviewError::Invalid);
                    },
                }
            }
        }
    }
    Ok(())
}

/// `acc` followed by the tens and the ones of `value`, each from its range.
pub open spec fn time_numbers_items(
    acc: Seq<ImageWithCoords>,
    t: Option<TimeNumbers>,
    value: Option<u32>,
) -> Option<Seq<ImageWithCoords>> {
    match t {
        Some(tn) => match value {
            Some(v) => match range_items(acc, tn.tens, Some(v / 10)) {
                Some(a) => range_items(a, tn.ones, Some(v % 10)),
                None => None,
            },
            None => Some(acc),
        },
        None => Some(acc),
    }
}

fn time_numbers_into(out: &mut Vec<ImageWithCoords>, t: &Option<TimeNumbers>, value: Option<u32>) -> (res:
    Result<(), PreviewError>)
    ensures
        outcome(res, final(out)@, time_numbers_items(old(out)@, *t, value)),
{
    if let Some(time_numbers) = t {
        if let Some(two_nums) = value {
            image_range_into(out, &time_numbers.tens, Some(two_nums / 10))?;
            image_range_into(out, &time_numbers.ones, Some(two_nums % 10))?;
        }
    }
    Ok(())
}

/// `acc` followed by the background image.
pub open spec fn background_items(acc: Seq<ImageWithCoords>, b: Option<Background>) -> Seq<
    ImageWithCoords,
> {
    match b {
        Some(bg) => acc + reference_items(bg.image),
        None => acc,
    }
}

/// `acc` followed by the time: the hours, minutes and seconds where the
/// values are given, then the delimiters.
pub open spec fn time_items(
    acc: Seq<ImageWithCoords>,
    t: Option<Time>,
    p: Option<PreviewParams>,
) -> Option<Seq<ImageWithCoords>> {
    match t {
        None => Some(acc),
        Some(time) => {
            let numbers = match p {
                Some(pv) => match time_numbers_items(acc, time.hours, pv.hours) {
                    Some(a) => match time_numbers_items(a, time.minutes, pv.minutes) {
                        Some(b) => time_numbers_items(b, time.seconds, pv.seconds),
                        None => None,
                    },
                    None => None,
                },
                None => Some(acc),
            };
            match numbers {
                Some(c) => Some(
                    c + reference_items(time.delimiter_image) + reference_items(
                        time.time_delimiter_image,
                    ),
                ),
                None => None,
            }
        },
    }
}

fn time_into(out: &mut Vec<ImageWithCoords>, t: &Option<Time>, p: &Option<PreviewParams>) -> (res:
    Result<(), PreviewError>)
    ensures
        outcome(res, final(out)@, time_items(old(out)@, *t, *p)),
{
    if let Some(time) = t {
        if let Some(pv) = p {
            time_numbers_into(out, &time.hours, pv.hours)?;
            time_numbers_into(out, &time.minutes, pv.minutes)?;
            time_numbers_into(out, &time.seconds, pv.seconds)?;
        }
        let ghost c = out@;
        image_reference_into(out, &time.delimiter_image);
        image_reference_into(out, &time.time_delimiter_image);
        assert(out@ =~= c + reference_items(time.delimiter_image) + reference_items(
            time.time_delimiter_image,
        ));
    }
    Ok(())
}

/// `acc` followed by `value` shown with the digits of `number`, where it
/// is given.
pub open spec fn counter_items(
    acc: Seq<ImageWithCoords>,
    number: Option<NumberInRect>,
    value: Option<u32>,
    images: Seq<Image>,
    prefix: Option<ImgId>,
    suffix: Option<ImgId>,
) -> Option<Seq<ImageWithCoords>> {
    match value {
        Some(v) => number_images(acc, number, decimal_of_u32(v), images, prefix, None, None, suffix, None),
        None => Some(acc),
    }
}

fn counter_into(
    out: &mut Vec<ImageWithCoords>,
    number: &Option<NumberInRect>,
    value: Option<u32>,
    images: &Vec<Image>,
    prefix: &Option<ImgId>,
    suffix: &Option<ImgId>,
) -> (res: Result<(), PreviewError>)
    ensures
        outcome(res, final(out)@, counter_items(old(out)@, *number, value, images@, *prefix, *suffix)),
{
    if let Some(v) = value {
        number_images_into(out, number, Decimal::from_u32(v), images, prefix, &None, &None, suffix, None)
    } else {
        Ok(())
    }
}

/// `acc` followed by the steps, calories, pulse, distance and PAI.
pub open spec fn activity_items(
    acc: Seq<ImageWithCoords>,
    a: Option<Activity>,
    p: Option<PreviewParams>,
    images: Seq<Image>,
) -> Option<Seq<ImageWithCoords>> {
    match (a, p) {
        (Some(act), Some(pv)) => {
            let s1 = match act.steps {
                Some(s) => counter_items(acc, s.number, pv.steps, images, s.prefix_image_index, s.suffix_image_index),
                None => Some(acc),
            };
            match s1 {
                None => None,
                Some(a1) => {
                    let s2 = match act.calories {
                        Some(c) => counter_items(a1, c.number, pv.calories, images, None, c.suffix_image_index),
                        None => Some(a1),
                    };
                    match s2 {
                        None => None,
                        Some(a2) => {
                            let s3 = match act.pulse {
                                Some(x) => counter_items(a2, x.number, pv.pulse, images, x.prefix_image_index, x.suffix_image_index),
                                None => Some(a2),
                            };
                            match s3 {
                                None => None,
                                Some(a3) => {
                                    let s4 = match (act.distance, pv.distance) {
                                        (Some(d), Some(v)) => number_images(a3, d.number, v, images, None, d.decimal_point_image_index, None, d.km_suffix_image_index, None),
                                        _ => Some(a3),
                                    };
                                    match s4 {
                                        None => None,
                                        Some(a4) => match act.pai {
                                            Some(x) => counter_items(a4, x.number, pv.pai, images, None, None),
                                            None => Some(a4),
                                        },
                                    }
                                },
                            }
                        },
                    }
                },
            }
        },
        _ => Some(acc),
    }
}

fn activity_into(
    out: &mut Vec<ImageWithCoords>,
    a: &Option<Activity>,
    p: &Option<PreviewParams>,
    images: &Vec<Image>,
) -> (res: Result<(), PreviewError>)
    ensures
        outcome(res, final(out)@, activity_items(old(out)@, *a, *p, images@)),
{
    if let Some(activity) = a {
        if let Some(pv) = p {
            if let Some(steps) = &activity.steps {
                counter_into(out, &steps.number, pv.steps, images, &steps.prefix_image_index, &steps.suffix_image_index)?;
            }
            if let Some(calories) = &activity.calories {
                counter_into(out, &calories.number, pv.calories, images, &None, &calories.suffix_image_index)?;
            }
            if let Some(pulse) = &activity.pulse {
                counter_into(out, &pulse.number, pv.pulse, images, &pulse.prefix_image_index, &pulse.suffix_image_index)?;
            }
            if let Some(distance) = &activity.distance {
                if let Some(v) = pv.distance {
                    number_images_into(
                        out,
                        &distance.number,
                        v,
                        images,
                        &None,
                        &distance.decimal_point_image_index,
                        &None,
                        &distance.km_suffix_image_index,
                        None,
                    )?;
                }
            }
            if let Some(pai) = &activity.pai {
                counter_into(out, &pai.number, pv.pai, images, &None, &None)?;
            }
        }
    }
    Ok(())
}

/// `n` held to the range of `usize`, as a cast from a single-precision
/// number does.
pub open spec fn saturate_usize(n: nat) -> usize {
    if n > usize::MAX {
        usize::MAX
    } else {
        n as usize
    }
}

/// `acc` followed by the progress bar `l` at `value` percent, where it has
/// a first image and the value is given: its segments up to the step that
/// the value reaches out of the segments after the first; `None` where it
/// has no segments, or not that many; see `Linear::progress_items`.
pub open spec fn linear_items(
    acc: Seq<ImageWithCoords>,
    l: Option<Linear>,
    value: Option<u32>,
) -> Option<Seq<ImageWithCoords>> {
    match l {
        Some(lin) => match (lin.start_image_index, value) {
            (Some(_), Some(v)) => if lin.segments@.len() == 0 {
                None
            } else {
                let step = saturate_usize(progress_position(v, (lin.segments@.len() - 1) as nat));
                match lin.progress_items(step) {
                    Some(s) => Some(acc + s),
                    None => None,
                }
            },
            _ => Some(acc),
        },
        None => Some(acc),
    }
}

fn linear_into(out: &mut Vec<ImageWithCoords>, l: &Option<Linear>, value: Option<u32>) -> (res:
    Result<(), PreviewError>)
    ensures
        outcome(res, final(out)@, linear_items(old(out)@, *l, value)),
{
    if let Some(linear) = l {
        if let Some(_) = &linear.start_image_index {
            if let Some(v) = value {
                let n = linear.segments.len();
                if n == 0 {
                    return Err(PreviewError::Invalid);
                }
                let p = progress_position_u128(v, (n - 1) as u64);
                let step: usize = if p > usize::MAX as u128 {
                    usize::MAX
                } else {
                    p as usize
                };
                let mut segments = linear.progress_images(step)?;
                out.append(&mut segments);
            }
        }
    }
    Ok(())
}

/// `acc` followed by the image of the scale `r` at `value` percent, where
/// both are given and the scale has a first image: the image as many after
/// the first as the step that the value reaches out of the images after the
/// first; `None` where the scale has no images or the index overflows `u32`.
pub open spec fn scale_items(
    acc: Seq<ImageWithCoords>,
    r: Option<ImageRange>,
    value: Option<u32>,
) -> Option<Seq<ImageWithCoords>> {
    match (value, r) {
        (Some(v), Some(ls)) => match ls.images_count {
            Some(c) => if c == 0 {
                None
            } else {
                match ls.image_index {
                    Some(id) => {
                        let step = saturate_u32(progress_position(v, (c - 1) as nat) as int);
                        if id.0 + step <= u32::MAX {
                            Some(acc.push(id_at(ls.x, ls.y, (id.0 + step) as u32)))
                        } else {
                            None
                        }
                    },
                    None => Some(acc),
                }
            },
            None => Some(acc),
        },
        _ => Some(acc),
    }
}

fn scale_into(out: &mut Vec<ImageWithCoords>, r: &Option<ImageRange>, value: Option<u32>) -> (res:
    Result<(), PreviewError>)
    ensures
        outcome(res, final(out)@, scale_items(old(out)@, *r, value)),
{
    if let Some(v) = value {
        if let Some(line_scale) = r {
            if let Some(images_count) = line_scale.images_count {
                if images_count == 0 {
                    return Err(PreviewError::Invalid);
                }
                if let Some(image_index) = &line_scale.image_index {
                    let p = progress_position_u128(v, (images_count - 1) as u64);
                    let step: u32 = if p > u32::MAX as u128 {
                        u32::MAX
                    } else {
                        p as u32
                    };
                    match image_index.0.checked_add(step) {
                        Some(id) => {
                            out.push(
                                ImageWithCoords { x: line_scale.x, y: line_scale.y, image_type: ImageType::Id(ImgId(id)) },
                            );
                        },
                        None => {
                            return Err(PreviewError::Invalid);
                        },
                    }
                }
            }
        }
    }
    Ok(())
}

/// `acc` followed by the heart-rate progress: its bar, then its scale.
pub open spec fn heart_items(
    acc: Seq<ImageWithCoords>,
    h: Option<HeartProgress>,
    p: Option<PreviewParams>,
) -> Option<Seq<ImageWithCoords>> {
    match (h, p) {
        (Some(hp), Some(pv)) => match linear_items(acc, hp.linear, pv.heart_progress) {
            Some(a) => scale_items(a, hp.line_scale, pv.heart_progress),
            None => None,
        },
        _ => Some(acc),
    }
}

fn heart_into(out: &mut Vec<ImageWithCoords>, h: &Option<HeartProgress>, p: &Option<PreviewParams>) -> (res:
    Result<(), PreviewError>)
    ensures
        outcome(res, final(out)@, heart_items(old(out)@, *h, *p)),
{
    if let Some(heart_progress) = h {
        if let Some(pv) = p {
            linear_into(out, &heart_progress.linear, pv.heart_progress)?;
            scale_into(out, &heart_progress.line_scale, pv.heart_progress)?;
        }
    }
    Ok(())
}

/// The icon of the day `v` of the week, Monday being 0.
pub open spec fn day_icon(w: WeekDaysIcons, v: u32) -> Option<ImageReference> {
    if v == 0 {
        w.monday
    } else if v == 1 {
        w.tuesday
    } else if v == 2 {
        w.wednesday
    } else if v == 3 {
        w.thursday
    } else if v == 4 {
        w.friday
    } else if v == 5 {
        w.saturday
    } else {
        w.sunday
    }
}

/// Whether the weekday of the preview values, where there is one, names a
/// day of the week: Monday is 0 and Sunday 6. A preview is asked for only
/// with such values.
pub open spec fn weekday_in_range(p: Option<PreviewParams>) -> bool {
    p matches Some(pv) ==> (pv.weekday matches Some(d) ==> d <= 6)
}

/// `acc` followed by the icon of the weekday; `None` past Sunday, a weekday
/// that no preview is asked for.
pub open spec fn week_days_items(
    acc: Seq<ImageWithCoords>,
    w: Option<WeekDaysIcons>,
    p: Option<PreviewParams>,
) -> Option<Seq<ImageWithCoords>> {
    match (w, p) {
        (Some(wd), Some(pv)) => match pv.weekday {
            Some(v) => if v > 6 {
                None
            } else {
                Some(acc + reference_items(day_icon(wd, v)))
            },
            None => Some(acc),
        },
        _ => Some(acc),
    }
}

fn week_days_into(out: &mut Vec<ImageWithCoords>, w: &Option<WeekDaysIcons>, p: &Option<PreviewParams>) -> (res:
    Result<(), PreviewError>)
    requires
        weekday_in_range(*p),
    ensures
        outcome(res, final(out)@, week_days_items(old(out)@, *w, *p)),
{
    if let Some(week_days_icons) = w {
        if let Some(pv) = p {
            if let Some(value) = pv.weekday {
                let day = if value == 0 {
                    &week_days_icons.monday
                } else if value == 1 {
                    &week_days_icons.tuesday
                } else if value == 2 {
                    &week_days_icons.wednesday
                } else if value == 3 {
                    &week_days_icons.thursday
                } else if value == 4 {
                    &week_days_icons.friday
                } else if value == 5 {
                    &week_days_icons.saturday
                } else {
                    &week_days_icons.sunday
                };
                image_reference_into(out, day);
            }
        }
    }
    Ok(())
}

/// `acc` followed by the alarm: its "on" or "off" image, then its time
/// where the hours and minutes are given.
pub open spec fn alarm_items(
    acc: Seq<ImageWithCoords>,
    a: Option<Alarm>,
    p: Option<PreviewParams>,
    images: Seq<Image>,
) -> Option<Seq<ImageWithCoords>> {
    match (a, p) {
        (Some(al), Some(pv)) => {
            let a1 = acc + if pv.alarm_on {
                reference_items(al.spec_on_image())
            } else {
                reference_items(al.spec_off_image())
            };
            match (pv.alarm_hours, pv.alarm_minutes) {
                (Some(h), Some(m)) => delimited_images(
                    a1,
                    al.spec_number(),
                    seq![decimal_of_u32(h), decimal_of_u32(m)],
                    images,
                    None,
                    al.spec_delimiter_image_index(),
                    None,
                    false,
                    Some(2usize),
                ),
                _ => Some(a1),
            }
        },
        _ => Some(acc),
    }
}

fn alarm_into(
    out: &mut Vec<ImageWithCoords>,
    a: &Option<Alarm>,
    p: &Option<PreviewParams>,
    images: &Vec<Image>,
) -> (res: Result<(), PreviewError>)
    ensures
        outcome(res, final(out)@, alarm_items(old(out)@, *a, *p, images@)),
{
    if let Some(alarm) = a {
        if let Some(pv) = p {
            if pv.alarm_on {
                image_reference_into(out, alarm.get_on_image());
            } else {
                image_reference_into(out, alarm.get_off_image());
            }
            if let Some(alarm_hours) = pv.alarm_hours {
                if let Some(alarm_minutes) = pv.alarm_minutes {
                    let values = vec![Decimal::from_u32(alarm_hours), Decimal::from_u32(alarm_minutes)];
                    assert(values@ =~= seq![decimal_of_u32(alarm_hours), decimal_of_u32(alarm_minutes)]);
                    numbers_with_delimiters_get_images(
                        out,
                        alarm.get_number(),
                        &values,
                        images,
                        &None,
                        alarm.get_delimiter_image_index(),
                        &None,
                        false,
                        Some(2),
                    )?;
                }
            }
        }
    }
    Ok(())
}

/// `acc` followed by the images of the do-not-disturb, lock and bluetooth
/// statuses.
pub open spec fn status_items(
    acc: Seq<ImageWithCoords>,
    s: Option<Status>,
    p: Option<PreviewParams>,
) -> Seq<ImageWithCoords> {
    match (s, p) {
        (Some(st), Some(pv)) => acc + status_image_items(st.do_not_disturb, pv.do_not_disturb)
            + status_image_items(st.lock, pv.lock) + status_image_items(st.bluetooth, pv.bluetooth),
        _ => acc,
    }
}

fn status_into(
    out: &mut Vec<ImageWithCoords>,
    s: &Option<Status>,
    p: &Option<PreviewParams>,
    images: &Vec<Image>,
)
    ensures
        final(out)@ == status_items(old(out)@, *s, *p),
{
    if let Some(status) = s {
        if let Some(pv) = p {
            let mut a = status_image_get_images(&status.do_not_disturb, pv.do_not_disturb, images);
            let mut b = status_image_get_images(&status.lock, pv.lock, images);
            let mut c = status_image_get_images(&status.bluetooth, pv.bluetooth, images);
            let ghost (av, bv, cv) = (a@, b@, c@);
            out.append(&mut a);
            out.append(&mut b);
            out.append(&mut c);
            assert(out@ =~= old(out)@ + av + bv + cv);
        }
    }
}

/// `acc` followed by the month, with its name, where it is given, then the
/// day where it is given, each with two digits; `None` for the month 0.
pub open spec fn separate_items(
    acc: Seq<ImageWithCoords>,
    s: Option<Separate>,
    pv: PreviewParams,
    images: Seq<Image>,
) -> Option<Seq<ImageWithCoords>> {
    match s {
        Some(sep) => {
            let m = match pv.month {
                Some(v) => match number_images(acc, sep.month, decimal_of_u32(v), images, None, None, None, None, Some(2usize)) {
                    Some(a) => if v == 0 {
                        None
                    } else {
                        range_items(a, sep.months_en, Some((v - 1) as u32))
                    },
                    None => None,
                },
                None => Some(acc),
            };
            match m {
                Some(a) => match pv.day {
                    Some(v) => number_images(a, sep.day, decimal_of_u32(v), images, None, None, None, None, Some(2usize)),
                    None => Some(a),
                },
                None => None,
            }
        },
        None => Some(acc),
    }
}

fn separate_into(
    out: &mut Vec<ImageWithCoords>,
    s: &Option<Separate>,
    pv: &PreviewParams,
    images: &Vec<Image>,
) -> (res: Result<(), PreviewError>)
    ensures
        outcome(res, final(out)@, separate_items(old(out)@, *s, *pv, images@)),
{
    if let Some(separate) = s {
        if let Some(value) = pv.month {
            number_images_into(out, &separate.month, Decimal::from_u32(value), images, &None, &None, &None, &None, Some(2))?;
            if value == 0 {
                return Err(PreviewError::Invalid);
            }
            image_range_into(out, &separate.months_en, Some(value - 1))?;
        }
        if let Some(value) = pv.day {
            number_images_into(out, &separate.day, Decimal::from_u32(value), images, &None, &None, &None, &None, Some(2))?;
        }
    }
    Ok(())
}

/// `acc` followed by the month and the day in one line, where both are
/// given.
pub open spec fn one_line_items(
    acc: Seq<ImageWithCoords>,
    o: Option<OneLine>,
    pv: PreviewParams,
    images: Seq<Image>,
) -> Option<Seq<ImageWithCoords>> {
    match (o, pv.month, pv.day) {
        (Some(ol), Some(m), Some(d)) => delimited_images(
            acc,
            ol.number,
            seq![decimal_of_u32(m), decimal_of_u32(d)],
            images,
            None,
            ol.delimiter_image_index,
            None,
            false,
            Some(2usize),
        ),
        _ => Some(acc),
    }
}

fn one_line_into(
    out: &mut Vec<ImageWithCoords>,
    o: &Option<OneLine>,
    pv: &PreviewParams,
    images: &Vec<Image>,
) -> (res: Result<(), PreviewError>)
    ensures
        outcome(res, final(out)@, one_line_items(old(out)@, *o, *pv, images@)),
{
    if let Some(one_line) = o {
        if let Some(month) = pv.month {
            if let Some(day) = pv.day {
                let values = vec![Decimal::from_u32(month), Decimal::from_u32(day)];
                assert(values@ =~= seq![decimal_of_u32(month), decimal_of_u32(day)]);
                return numbers_with_delimiters_get_images(
                    out,
                    &one_line.number,
                    &values,
                    images,
                    &None,
                    &one_line.delimiter_image_index,
                    &None,
                    false,
                    Some(2),
                );
            }
        }
    }
    Ok(())
}

/// The "AM" or "PM" image, where the time is shown in 12 hours.
pub open spec fn am_pm_items(d: Option<DayAmPm>, pv: PreviewParams) -> Seq<ImageWithCoords> {
    match d {
        Some(ap) => if pv.time12h {
            let index = if pv.am {
                ap.image_index_amen
            } else {
                ap.image_index_pmen
            };
            match index {
                Some(id) => seq![id_at(ap.x, ap.y, id.0)],
                None => Seq::empty(),
            }
        } else {
            Seq::empty()
        },
        None => Seq::empty(),
    }
}

/// `acc` followed by the date: the month and day, the "AM" or "PM" image,
/// and the weekday.
pub open spec fn date_items(
    acc: Seq<ImageWithCoords>,
    d: Option<Date>,
    p: Option<PreviewParams>,
    images: Seq<Image>,
) -> Option<Seq<ImageWithCoords>> {
    match (d, p) {
        (Some(date), Some(pv)) => {
            let m = match date.month_and_day_and_year {
                Some(mdy) => match separate_items(acc, mdy.separate, pv, images) {
                    Some(a) => one_line_items(a, mdy.one_line, pv, images),
                    None => None,
                },
                None => Some(acc),
            };
            match m {
                Some(a) => range_items(a + am_pm_items(date.day_am_pm, pv), date.en_week_days, pv.weekday),
                None => None,
            }
        },
        _ => Some(acc),
    }
}

/// The image that marks the half of the day, placed at the point of
/// `day_am_pm`, when the time is shown in 12 hours: the morning image when
/// `am` holds and the afternoon image otherwise, nothing where that image is
/// not given or the time is shown in 24 hours. A date with no other part
/// shows that image alone.
pub proof fn law_am_pm_image(acc: Seq<ImageWithCoords>, date: Date, pv: PreviewParams, images: Seq<Image>)
    ensures
        ({
            let ap = date.day_am_pm;
            let expected = match ap {
                Some(d) => if !pv.time12h {
                    Seq::empty()
                } else if pv.am {
                    match d.image_index_amen {
                        Some(id) => seq![ImageWithCoords { x: d.x, y: d.y, image_type: ImageType::Id(id) }],
                        None => Seq::empty(),
                    }
                } else {
                    match d.image_index_pmen {
                        Some(id) => seq![ImageWithCoords { x: d.x, y: d.y, image_type: ImageType::Id(id) }],
                        None => Seq::empty(),
                    }
                },
                None => Seq::empty(),
            };
            &&& am_pm_items(ap, pv) == expected
            &&& date.month_and_day_and_year is None && date.en_week_days is None ==> date_items(
                acc,
                Some(date),
                Some(pv),
                images,
            ) == Some(acc + expected)
        }),
{
}

fn date_into(
    out: &mut Vec<ImageWithCoords>,
    d: &Option<Date>,
    p: &Option<PreviewParams>,
    images: &Vec<Image>,
) -> (res: Result<(), PreviewError>)
    ensures
        outcome(res, final(out)@, date_items(old(out)@, *d, *p, images@)),
{
    if let Some(date) = d {
        if let Some(pv) = p {
            if let Some(month_and_day_and_year) = &date.month_and_day_and_year {
                separate_into(out, &month_and_day_and_year.separate, pv, images)?;
                one_line_into(out, &month_and_day_and_year.one_line, pv, images)?;
            }
            let ghost before = out@;
            if let Some(day_am_pm) = &date.day_am_pm {
                if pv.time12h {
                    let index = if pv.am {
                        &day_am_pm.image_index_amen
                    } else {
                        &day_am_pm.image_index_pmen
                    };
                    if let Some(image_index) = index {
                        out.push(
                            ImageWithCoords {
                                x: day_am_pm.x,
                                y: day_am_pm.y,
                                image_type: ImageType::Id(ImgId(image_index.0)),
                            },
                        );
                    }
                }
            }
            assert(out@ =~= before + am_pm_items(date.day_am_pm, *pv));
            image_range_into(out, &date.en_week_days, pv.weekday)?;
        }
    }
    Ok(())
}

/// `acc` followed by a temperature shown with `t`, where both are given.
pub open spec fn temperature_type_items(
    acc: Seq<ImageWithCoords>,
    t: Option<TemperatureType>,
    value: Option<i32>,
    images: Seq<Image>,
) -> Option<Seq<ImageWithCoords>> {
    match (t, value) {
        (Some(tt), Some(v)) => number_images(
            acc,
            tt.number,
            decimal_of_i32(v),
            images,
            None,
            None,
            tt.minus_image_index,
            tt.suffix_image_index,
            None,
        ),
        _ => Some(acc),
    }
}

fn temperature_type_into(
    out: &mut Vec<ImageWithCoords>,
    t: &Option<TemperatureType>,
    value: Option<i32>,
    images: &Vec<Image>,
) -> (res: Result<(), PreviewError>)
    ensures
        outcome(res, final(out)@, temperature_type_items(old(out)@, *t, value, images@)),
{
    if let Some(tt) = t {
        if let Some(v) = value {
            return number_images_into(
                out,
                &tt.number,
                Decimal::from_i32(v),
                images,
                &None,
                &None,
                &tt.minus_image_index,
                &tt.suffix_image_index,
                None,
            );
        }
    }
    Ok(())
}

/// `acc` followed by the current temperature, then those of the day and
/// the night.
pub open spec fn temperature_items(
    acc: Seq<ImageWithCoords>,
    t: Option<Temperature>,
    pv: PreviewParams,
    images: Seq<Image>,
) -> Option<Seq<ImageWithCoords>> {
    match t {
        Some(te) => match temperature_type_items(acc, te.current, pv.temperature, images) {
            Some(a) => match te.today {
                Some(td) => match td.separate {
                    Some(sep) => match temperature_type_items(a, sep.day, pv.day_temperature, images) {
                        Some(b) => temperature_type_items(b, sep.night, pv.night_temperature, images),
                        None => None,
                    },
                    None => Some(a),
                },
                None => Some(a),
            },
            None => None,
        },
        None => Some(acc),
    }
}

fn temperature_into(
    out: &mut Vec<ImageWithCoords>,
    t: &Option<Temperature>,
    pv: &PreviewParams,
    images: &Vec<Image>,
) -> (res: Result<(), PreviewError>)
    ensures
        outcome(res, final(out)@, temperature_items(old(out)@, *t, *pv, images@)),
{
    if let Some(temperature) = t {
        temperature_type_into(out, &temperature.current, pv.temperature, images)?;
        if let Some(today) = &temperature.today {
            if let Some(separate) = &today.separate {
                temperature_type_into(out, &separate.day, pv.day_temperature, images)?;
                temperature_type_into(out, &separate.night, pv.night_temperature, images)?;
            }
        }
    }
    Ok(())
}

/// `acc` followed by the humidity and the image after it, where the value
/// is given.
pub open spec fn humidity_items(
    acc: Seq<ImageWithCoords>,
    h: Option<Humidity>,
    value: Option<i32>,
    images: Seq<Image>,
) -> Option<Seq<ImageWithCoords>> {
    match (h, value) {
        (Some(hu), Some(v)) => match number_images(acc, hu.number, decimal_of_i32(v), images, None, None, None, hu.suffix_image_index, None) {
            Some(a) => Some(a + reference_items(hu.image_pos_suffix)),
            None => None,
        },
        _ => Some(acc),
    }
}

fn humidity_into(
    out: &mut Vec<ImageWithCoords>,
    h: &Option<Humidity>,
    value: Option<i32>,
    images: &Vec<Image>,
) -> (res: Result<(), PreviewError>)
    ensures
        outcome(res, final(out)@, humidity_items(old(out)@, *h, value, images@)),
{
    if let Some(humidity) = h {
        if let Some(v) = value {
            number_images_into(out, &humidity.number, Decimal::from_i32(v), images, &None, &None, &None, &humidity.suffix_image_index, None)?;
            image_reference_into(out, &humidity.image_pos_suffix);
        }
    }
    Ok(())
}

/// `acc` followed by the wind and the image after it, where the value is
/// given.
pub open spec fn wind_items(
    acc: Seq<ImageWithCoords>,
    w: Option<Wind>,
    value: Option<i32>,
    images: Seq<Image>,
) -> Option<Seq<ImageWithCoords>> {
    match (w, value) {
        (Some(wi), Some(v)) => match number_images(acc, wi.number, decimal_of_i32(v), images, None, None, None, wi.suffix_image_index_en, None) {
            Some(a) => Some(a + reference_items(wi.image_pos_suffix_en)),
            None => None,
        },
        _ => Some(acc),
    }
}

fn wind_into(
    out: &mut Vec<ImageWithCoords>,
    w: &Option<Wind>,
    value: Option<i32>,
    images: &Vec<Image>,
) -> (res: Result<(), PreviewError>)
    ensures
        outcome(res, final(out)@, wind_items(old(out)@, *w, value, images@)),
{
    if let Some(wind) = w {
        if let Some(v) = value {
            number_images_into(out, &wind.number, Decimal::from_i32(v), images, &None, &None, &None, &wind.suffix_image_index_en, None)?;
            image_reference_into(out, &wind.image_pos_suffix_en);
        }
    }
    Ok(())
}

/// `acc` followed by the UV index, where it is given.
pub open spec fn uv_items(
    acc: Seq<ImageWithCoords>,
    u: Option<UVIndex>,
    value: Option<i32>,
    images: Seq<Image>,
) -> Option<Seq<ImageWithCoords>> {
    match (u, value) {
        (Some(ui), Some(v)) => match ui.uv {
            Some(uv) => number_images(acc, uv.number, decimal_of_i32(v), images, None, None, None, uv.suffix_image_index, None),
            None => Some(acc),
        },
        _ => Some(acc),
    }
}

fn uv_into(
    out: &mut Vec<ImageWithCoords>,
    u: &Option<UVIndex>,
    value: Option<i32>,
    images: &Vec<Image>,
) -> (res: Result<(), PreviewError>)
    ensures
        outcome(res, final(out)@, uv_items(old(out)@, *u, value, images@)),
{
    if let Some(uv_index) = u {
        if let Some(v) = value {
            if let Some(uv) = &uv_index.uv {
                number_images_into(out, &uv.number, Decimal::from_i32(v), images, &None, &None, &None, &uv.suffix_image_index, None)?;
            }
        }
    }
    Ok(())
}

/// `acc` followed by the weather: its icon, temperatures, humidity, wind
/// and UV index.
pub open spec fn weather_items(
    acc: Seq<ImageWithCoords>,
    w: Option<Weather>,
    p: Option<PreviewParams>,
    images: Seq<Image>,
) -> Option<Seq<ImageWithCoords>> {
    match (w, p) {
        (Some(we), Some(pv)) => {
            let i = match we.icon {
                Some(ic) => range_items(acc, ic.custom_icon, pv.weather),
                None => Some(acc),
            };
            match i {
                Some(a1) => match temperature_items(a1, we.temperature, pv, images) {
                    Some(a2) => match humidity_items(a2, we.humidity, pv.humidity, images) {
                        Some(a3) => match wind_items(a3, we.wind, pv.wind, images) {
                            Some(a4) => uv_items(a4, we.uv_index, pv.uv, images),
                            None => None,
                        },
                        None => None,
                    },
                    None => None,
                },
                None => None,
            }
        },
        _ => Some(acc),
    }
}

fn weather_into(
    out: &mut Vec<ImageWithCoords>,
    w: &Option<Weather>,
    p: &Option<PreviewParams>,
    images: &Vec<Image>,
) -> (res: Result<(), PreviewError>)
    ensures
        outcome(res, final(out)@, weather_items(old(out)@, *w, *p, images@)),
{
    if let Some(weather) = w {
        if let Some(pv) = p {
            if let Some(icon) = &weather.icon {
                image_range_into(out, &icon.custom_icon, pv.weather)?;
            }
            temperature_into(out, &weather.temperature, pv, images)?;
            humidity_into(out, &weather.humidity, pv.humidity, images)?;
            wind_into(out, &weather.wind, pv.wind, images)?;
            uv_into(out, &weather.uv_index, pv.uv, images)?;
        }
    }
    Ok(())
}

/// `acc` followed by the steps progress: its bar, then its scale.
pub open spec fn steps_progress_items(
    acc: Seq<ImageWithCoords>,
    s: Option<StepsProgress>,
    p: Option<PreviewParams>,
) -> Option<Seq<ImageWithCoords>> {
    match (s, p) {
        (Some(sp), Some(pv)) => match linear_items(acc, sp.linear, pv.steps_progress) {
            Some(a) => scale_items(a, sp.line_scale, pv.steps_progress),
            None => None,
        },
        _ => Some(acc),
    }
}

fn steps_progress_into(
    out: &mut Vec<ImageWithCoords>,
    s: &Option<StepsProgress>,
    p: &Option<PreviewParams>,
) -> (res: Result<(), PreviewError>)
    ensures
        outcome(res, final(out)@, steps_progress_items(old(out)@, *s, *p)),
{
    if let Some(steps_progress) = s {
        if let Some(pv) = p {
            linear_into(out, &steps_progress.linear, pv.steps_progress)?;
            scale_into(out, &steps_progress.line_scale, pv.steps_progress)?;
        }
    }
    Ok(())
}

/// `acc` followed by the battery: its level as a number, its icon, and its
/// progress bar.
pub open spec fn battery_items(
    acc: Seq<ImageWithCoords>,
    b: Option<Battery>,
    p: Option<PreviewParams>,
    images: Seq<Image>,
) -> Option<Seq<ImageWithCoords>> {
    match (b, p) {
        (Some(bt), Some(pv)) => {
            let t = match bt.battery_text {
                Some(x) => counter_items(acc, x.number, pv.battery, images, x.prefix_image_index, x.suffix_image_index),
                None => Some(acc),
            };
            match t {
                Some(a) => match scale_items(a, bt.battery_icon, pv.battery) {
                    Some(c) => linear_items(c, bt.linear, pv.battery),
                    None => None,
                },
                None => None,
            }
        },
        _ => Some(acc),
    }
}

fn battery_into(
    out: &mut Vec<ImageWithCoords>,
    b: &Option<Battery>,
    p: &Option<PreviewParams>,
    images: &Vec<Image>,
) -> (res: Result<(), PreviewError>)
    ensures
        outcome(res, final(out)@, battery_items(old(out)@, *b, *p, images@)),
{
    if let Some(battery) = b {
        if let Some(pv) = p {
            if let Some(battery_text) = &battery.battery_text {
                counter_into(out, &battery_text.number, pv.battery, images, &battery_text.prefix_image_index, &battery_text.suffix_image_index)?;
            }
            scale_into(out, &battery.battery_icon, pv.battery)?;
            linear_into(out, &battery.linear, pv.battery)?;
        }
    }
    Ok(())
}

/// The hand `kind` at `value`, where the shape has a colour, a centre and
/// at least one point, then the image at its centre.
pub open spec fn hand_items(v: Option<VectorShape>, value: Option<u32>, kind: HandKind) -> Seq<
    ImageWithCoords,
> {
    match (value, v) {
        (Some(x), Some(shape)) => (if shape.color is Some && shape.center is Some && shape.shape@.len()
            > 0 {
            seq![ImageWithCoords { x: 0, y: 0, image_type: ImageType::Hand(kind, x) }]
        } else {
            Seq::empty()
        }) + reference_items(shape.center_image),
        _ => Seq::empty(),
    }
}

/// Appends the hand `kind` at `param`; see `hand_items`.
pub fn vector_shape_get_images(
    out: &mut Vec<ImageWithCoords>,
    vector_shape: &Option<VectorShape>,
    param: Option<u32>,
    kind: HandKind,
)
    ensures
        final(out)@ == old(out)@ + hand_items(*vector_shape, param, kind),
{
    if let Some(value) = param {
        if let Some(shape) = vector_shape {
            if shape.color.is_some() && shape.center.is_some() && shape.shape.len() > 0 {
                out.push(ImageWithCoords { x: 0, y: 0, image_type: ImageType::Hand(kind, value) });
            }
            let ghost before = out@;
            image_reference_into(out, &shape.center_image);
            assert(out@ =~= old(out)@ + hand_items(*vector_shape, param, kind));
        }
    }
    assert(out@ =~= old(out)@ + hand_items(*vector_shape, param, kind));
}

/// `acc` followed by the hands of the analog dial.
pub open spec fn analog_items(
    acc: Seq<ImageWithCoords>,
    a: Option<AnalogDialFace>,
    p: Option<PreviewParams>,
) -> Seq<ImageWithCoords> {
    match (a, p) {
        (Some(ad), Some(pv)) => acc + hand_items(ad.hours, pv.hours, HandKind::Hours) + hand_items(
            ad.minutes,
            pv.minutes,
            HandKind::Minutes,
        ) + hand_items(ad.seconds, pv.seconds, HandKind::Seconds),
        _ => acc,
    }
}

fn analog_into(out: &mut Vec<ImageWithCoords>, a: &Option<AnalogDialFace>, p: &Option<PreviewParams>)
    ensures
        final(out)@ == analog_items(old(out)@, *a, *p),
{
    if let Some(analog_dial_face) = a {
        if let Some(pv) = p {
            vector_shape_get_images(out, &analog_dial_face.hours, pv.hours, HandKind::Hours);
            vector_shape_get_images(out, &analog_dial_face.minutes, pv.minutes, HandKind::Minutes);
            vector_shape_get_images(out, &analog_dial_face.seconds, pv.seconds, HandKind::Seconds);
        }
    }
}

/// `acc` followed by the image `value` of each animation, from the `i`-th on.
pub open spec fn animation_items(
    acc: Seq<ImageWithCoords>,
    anims: Seq<Animation>,
    value: u32,
    i: nat,
) -> Option<Seq<ImageWithCoords>>
    decreases anims.len() - i,
{
    if i >= anims.len() {
        Some(acc)
    } else {
        match range_items(acc, anims[i as int].animation_images, Some(value)) {
            Some(a) => animation_items(a, anims, value, i + 1),
            None => None,
        }
    }
}

/// `acc` followed by the image `animation` of each animation, where it is
/// given.
pub open spec fn other_items(
    acc: Seq<ImageWithCoords>,
    o: Option<Other>,
    p: Option<PreviewParams>,
) -> Option<Seq<ImageWithCoords>> {
    match (o, p) {
        (Some(ot), Some(pv)) => match pv.animation {
            Some(v) => animation_items(acc, ot.animation.0@, v, 0),
            None => Some(acc),
        },
        _ => Some(acc),
    }
}

fn other_into(out: &mut Vec<ImageWithCoords>, o: &Option<Other>, p: &Option<PreviewParams>) -> (res:
    Result<(), PreviewError>)
    ensures
        outcome(res, final(out)@, other_items(old(out)@, *o, *p)),
{
    if let Some(other) = o {
        if let Some(pv) = p {
            if let Some(value) = pv.animation {
                let anims = &other.animation.0;
                let mut i: usize = 0;
                while i < anims.len()
                    invariant
                        i <= anims.len(),
                        *anims == other.animation.0,
                        other_items(old(out)@, *o, *p) == animation_items(out@, anims@, value, i as nat),
                    decreases anims.len() - i,
                {
                    image_range_into(out, &anims[i].animation_images, Some(value))?;
                    i = i + 1;
                }
            }
        }
    }
    Ok(())
}

/// `acc` followed by the background, time, activity, heart-rate progress,
/// weekday icon, alarm and status.
pub open spec fn first_items(
    acc: Seq<ImageWithCoords>,
    mp: MiBandParams,
    p: Option<PreviewParams>,
    images: Seq<Image>,
) -> Option<Seq<ImageWithCoords>> {
    match time_items(background_items(acc, mp.background), mp.time, p) {
        Some(a1) => match activity_items(a1, mp.activity, p, images) {
            Some(a2) => match heart_items(a2, mp.heart_progress, p) {
                Some(a3) => match week_days_items(a3, mp.week_days_icons, p) {
                    Some(a4) => match alarm_items(a4, mp.alarm, p, images) {
                        Some(a5) => Some(status_items(a5, mp.status, p)),
                        None => None,
                    },
                    None => None,
                },
                None => None,
            },
            None => None,
        },
        None => None,
    }
}

/// `acc` followed by the date, weather, steps progress, battery, analog
/// dial, animations and second status.
pub open spec fn second_items(
    acc: Seq<ImageWithCoords>,
    mp: MiBandParams,
    p: Option<PreviewParams>,
    images: Seq<Image>,
) -> Option<Seq<ImageWithCoords>> {
    match date_items(acc, mp.date, p, images) {
        Some(a1) => match weather_items(a1, mp.weather, p, images) {
            Some(a2) => match steps_progress_items(a2, mp.steps_progress, p) {
                Some(a3) => match battery_items(a3, mp.battery, p, images) {
                    Some(a4) => match other_items(analog_items(a4, mp.analog_dial_face, p), mp.other, p) {
                        Some(a5) => Some(status_items(a5, mp.status2, p)),
                        None => None,
                    },
                    None => None,
                },
                None => None,
            },
            None => None,
        },
        None => None,
    }
}

/// The preview of the parameters `mp` showing the values `p`, after `acc`:
/// each element in turn, `None` where one cannot be made.
pub open spec fn params_items(
    acc: Seq<ImageWithCoords>,
    mp: MiBandParams,
    p: Option<PreviewParams>,
    images: Seq<Image>,
) -> Option<Seq<ImageWithCoords>> {
    match first_items(acc, mp, p, images) {
        Some(a) => second_items(a, mp, p, images),
        None => None,
    }
}

/// The preview of the watchface `w` showing the values `p`: nothing where
/// it has no parameters.
pub open spec fn preview_items(w: Watchface<MiBandParams>, p: Option<PreviewParams>) -> Option<
    Seq<ImageWithCoords>,
> {
    match w.parameters {
        Some(mp) => params_items(Seq::empty(), mp, p, w.images@),
        None => Some(Seq::empty()),
    }
}

fn first_into(
    out: &mut Vec<ImageWithCoords>,
    mp: &MiBandParams,
    p: &Option<PreviewParams>,
    images: &Vec<Image>,
) -> (res: Result<(), PreviewError>)
    requires
        weekday_in_range(*p),
    ensures
        outcome(res, final(out)@, first_items(old(out)@, *mp, *p, images@)),
{
    if let Some(background) = &mp.background {
        image_reference_into(out, &background.image);
    }
    assert(out@ =~= background_items(old(out)@, mp.background));
    time_into(out, &mp.time, p)?;
    activity_into(out, &mp.activity, p, images)?;
    heart_into(out, &mp.heart_progress, p)?;
    week_days_into(out, &mp.week_days_icons, p)?;
    alarm_into(out, &mp.alarm, p, images)?;
    status_into(out, &mp.status, p, images);
    Ok(())
}

fn second_into(
    out: &mut Vec<ImageWithCoords>,
    mp: &MiBandParams,
    p: &Option<PreviewParams>,
    images: &Vec<Image>,
) -> (res: Result<(), PreviewError>)
    ensures
        outcome(res, final(out)@, second_items(old(out)@, *mp, *p, images@)),
{
    date_into(out, &mp.date, p, images)?;
    weather_into(out, &mp.weather, p, images)?;
    steps_progress_into(out, &mp.steps_progress, p)?;
    battery_into(out, &mp.battery, p, images)?;
    analog_into(out, &mp.analog_dial_face, p);
    other_into(out, &mp.other, p)?;
    status_into(out, &mp.status2, p, images);
    Ok(())
}

/// A value that an element of a preview is shown with: a flag, an optional
/// unsigned or signed number, or an optional decimal number.
#[derive(Debug, PartialEq, Eq, Clone, Copy)]
pub enum ParamType {
    Bool(bool),
    U32(Option<u32>),
    I32(Option<i32>),
    Decimal(Option<Decimal>),
}

/// The unsigned number that the first of `params` gives, where it is one.
pub open spec fn first_u32(params: Seq<ParamType>) -> Option<u32> {
    if params.len() > 0 {
        match params[0] {
            ParamType::U32(v) => v,
            _ => None,
        }
    } else {
        None
    }
}

/// The decimal number that the first of `params` gives, where it is one.
pub open spec fn first_decimal(params: Seq<ParamType>) -> Option<Decimal> {
    if params.len() > 0 {
        match params[0] {
            ParamType::Decimal(v) => v,
            _ => None,
        }
    } else {
        None
    }
}

fn first_u32_of(params: &Vec<ParamType>) -> (r: Option<u32>)
    ensures
        r == first_u32(params@),
{
    if params.len() > 0 {
        match params[0] {
            ParamType::U32(v) => v,
            _ => None,
        }
    } else {
        None
    }
}

fn first_decimal_of(params: &Vec<ParamType>) -> (r: Option<Decimal>)
    ensures
        r == first_decimal(params@),
{
    if params.len() > 0 {
        match params[0] {
            ParamType::Decimal(v) => v,
            _ => None,
        }
    } else {
        None
    }
}

/// An element of a watchface that a preview shows: with the values
/// `all_params` of the whole preview, and the values `params` that its
/// parent element passes it, it adds its images after those already there.
pub trait Preview {
    /// `acc` followed by the images of the element, or `None` where they
    /// cannot be made.
    spec fn spec_images(
        &self,
        acc: Seq<ImageWithCoords>,
        all_params: Option<PreviewParams>,
        params: Seq<ParamType>,
        images: Seq<Image>,
    ) -> Option<Seq<ImageWithCoords>>;

    /// Appends the images of the element; see `spec_images`.
    fn get_images(
        &self,
        out: &mut Vec<ImageWithCoords>,
        all_params: &Option<PreviewParams>,
        params: &Vec<ParamType>,
        images: &Vec<Image>,
    ) -> (res: Result<(), PreviewError>)
        requires
            weekday_in_range(*all_params),
        ensures
            outcome(res, final(out)@, self.spec_images(old(out)@, *all_params, params@, images@)),
    ;
}

impl Preview for Option<ImageReference> {
    open spec fn spec_images(
        &self,
        acc: Seq<ImageWithCoords>,
        all_params: Option<PreviewParams>,
        params: Seq<ParamType>,
        images: Seq<Image>,
    ) -> Option<Seq<ImageWithCoords>> {
        Some(acc + reference_items(*self))
    }

    fn get_images(
        &self,
        out: &mut Vec<ImageWithCoords>,
        all_params: &Option<PreviewParams>,
        params: &Vec<ParamType>,
        images: &Vec<Image>,
    ) -> (res: Result<(), PreviewError>) {
        image_reference_into(out, self);
        Ok(())
    }
}

impl Preview for Option<Background> {
    open spec fn spec_images(
        &self,
        acc: Seq<ImageWithCoords>,
        all_params: Option<PreviewParams>,
        params: Seq<ParamType>,
        images: Seq<Image>,
    ) -> Option<Seq<ImageWithCoords>> {
        Some(background_items(acc, *self))
    }

    fn get_images(
        &self,
        out: &mut Vec<ImageWithCoords>,
        all_params: &Option<PreviewParams>,
        params: &Vec<ParamType>,
        images: &Vec<Image>,
    ) -> (res: Result<(), PreviewError>) {
        if let Some(background) = self {
            image_reference_into(out, &background.image);
        }
        assert(out@ =~= background_items(old(out)@, *self));
        Ok(())
    }
}

impl Preview for Option<ImageRange> {
    open spec fn spec_images(
        &self,
        acc: Seq<ImageWithCoords>,
        all_params: Option<PreviewParams>,
        params: Seq<ParamType>,
        images: Seq<Image>,
    ) -> Option<Seq<ImageWithCoords>> {
        range_items(acc, *self, first_u32(params))
    }

    fn get_images(
        &self,
        out: &mut Vec<ImageWithCoords>,
        all_params: &Option<PreviewParams>,
        params: &Vec<ParamType>,
        images: &Vec<Image>,
    ) -> (res: Result<(), PreviewError>) {
        image_range_into(out, self, first_u32_of(params))
    }
}

impl Preview for Option<TimeNumbers> {
    open spec fn spec_images(
        &self,
        acc: Seq<ImageWithCoords>,
        all_params: Option<PreviewParams>,
        params: Seq<ParamType>,
        images: Seq<Image>,
    ) -> Option<Seq<ImageWithCoords>> {
        time_numbers_items(acc, *self, first_u32(params))
    }

    fn get_images(
        &self,
        out: &mut Vec<ImageWithCoords>,
        all_params: &Option<PreviewParams>,
        params: &Vec<ParamType>,
        images: &Vec<Image>,
    ) -> (res: Result<(), PreviewError>) {
        time_numbers_into(out, self, first_u32_of(params))
    }
}

impl Preview for Option<Time> {
    open spec fn spec_images(
        &self,
        acc: Seq<ImageWithCoords>,
        all_params: Option<PreviewParams>,
        params: Seq<ParamType>,
        images: Seq<Image>,
    ) -> Option<Seq<ImageWithCoords>> {
        time_items(acc, *self, all_params)
    }

    fn get_images(
        &self,
        out: &mut Vec<ImageWithCoords>,
        all_params: &Option<PreviewParams>,
        params: &Vec<ParamType>,
        images: &Vec<Image>,
    ) -> (res: Result<(), PreviewError>) {
        time_into(out, self, all_params)
    }
}

impl Preview for Option<Steps> {
    open spec fn spec_images(
        &self,
        acc: Seq<ImageWithCoords>,
        all_params: Option<PreviewParams>,
        params: Seq<ParamType>,
        images: Seq<Image>,
    ) -> Option<Seq<ImageWithCoords>> {
        match *self {
            Some(s) => counter_items(acc, s.number, first_u32(params), images, s.prefix_image_index, s.suffix_image_index),
            None => Some(acc),
        }
    }

    fn get_images(
        &self,
        out: &mut Vec<ImageWithCoords>,
        all_params: &Option<PreviewParams>,
        params: &Vec<ParamType>,
        images: &Vec<Image>,
    ) -> (res: Result<(), PreviewError>) {
        match self {
            Some(s) => counter_into(out, &s.number, first_u32_of(params), images, &s.prefix_image_index, &s.suffix_image_index),
            None => Ok(()),
        }
    }
}

impl Preview for Option<Pulse> {
    open spec fn spec_images(
        &self,
        acc: Seq<ImageWithCoords>,
        all_params: Option<PreviewParams>,
        params: Seq<ParamType>,
        images: Seq<Image>,
    ) -> Option<Seq<ImageWithCoords>> {
        match *self {
            Some(s) => counter_items(acc, s.number, first_u32(params), images, s.prefix_image_index, s.suffix_image_index),
            None => Some(acc),
        }
    }

    fn get_images(
        &self,
        out: &mut Vec<ImageWithCoords>,
        all_params: &Option<PreviewParams>,
        params: &Vec<ParamType>,
        images: &Vec<Image>,
    ) -> (res: Result<(), PreviewError>) {
        match self {
            Some(s) => counter_into(out, &s.number, first_u32_of(params), images, &s.prefix_image_index, &s.suffix_image_index),
            None => Ok(()),
        }
    }
}

impl Preview for Option<Calories> {
    open spec fn spec_images(
        &self,
        acc: Seq<ImageWithCoords>,
        all_params: Option<PreviewParams>,
        params: Seq<ParamType>,
        images: Seq<Image>,
    ) -> Option<Seq<ImageWithCoords>> {
        match *self {
            Some(s) => counter_items(acc, s.number, first_u32(params), images, None, s.suffix_image_index),
            None => Some(acc),
        }
    }

    fn get_images(
        &self,
        out: &mut Vec<ImageWithCoords>,
        all_params: &Option<PreviewParams>,
        params: &Vec<ParamType>,
        images: &Vec<Image>,
    ) -> (res: Result<(), PreviewError>) {
        match self {
            Some(s) => counter_into(out, &s.number, first_u32_of(params), images, &None, &s.suffix_image_index),
            None => Ok(()),
        }
    }
}

impl Preview for Option<PAI> {
    open spec fn spec_images(
        &self,
        acc: Seq<ImageWithCoords>,
        all_params: Option<PreviewParams>,
        params: Seq<ParamType>,
        images: Seq<Image>,
    ) -> Option<Seq<ImageWithCoords>> {
        match *self {
            Some(s) => counter_items(acc, s.number, first_u32(params), images, None, None),
            None => Some(acc),
        }
    }

    fn get_images(
        &self,
        out: &mut Vec<ImageWithCoords>,
        all_params: &Option<PreviewParams>,
        params: &Vec<ParamType>,
        images: &Vec<Image>,
    ) -> (res: Result<(), PreviewError>) {
        match self {
            Some(s) => counter_into(out, &s.number, first_u32_of(params), images, &None, &None),
            None => Ok(()),
        }
    }
}

impl Preview for Option<Distance> {
    open spec fn spec_images(
        &self,
        acc: Seq<ImageWithCoords>,
        all_params: Option<PreviewParams>,
        params: Seq<ParamType>,
        images: Seq<Image>,
    ) -> Option<Seq<ImageWithCoords>> {
        match (*self, first_decimal(params)) {
            (Some(d), Some(v)) => number_images(acc, d.number, v, images, None, d.decimal_point_image_index, None, d.km_suffix_image_index, None),
            _ => Some(acc),
        }
    }

    fn get_images(
        &self,
        out: &mut Vec<ImageWithCoords>,
        all_params: &Option<PreviewParams>,
        params: &Vec<ParamType>,
        images: &Vec<Image>,
    ) -> (res: Result<(), PreviewError>) {
        if let Some(distance) = self {
            if let Some(v) = first_decimal_of(params) {
                return number_images_into(
                    out,
                    &distance.number,
                    v,
                    images,
                    &None,
                    &distance.decimal_point_image_index,
                    &None,
                    &distance.km_suffix_image_index,
                    None,
                );
            }
        }
        Ok(())
    }
}

impl Preview for Option<Activity> {
    open spec fn spec_images(
        &self,
        acc: Seq<ImageWithCoords>,
        all_params: Option<PreviewParams>,
        params: Seq<ParamType>,
        images: Seq<Image>,
    ) -> Option<Seq<ImageWithCoords>> {
        activity_items(acc, *self, all_params, images)
    }

    fn get_images(
        &self,
        out: &mut Vec<ImageWithCoords>,
        all_params: &Option<PreviewParams>,
        params: &Vec<ParamType>,
        images: &Vec<Image>,
    ) -> (res: Result<(), PreviewError>) {
        activity_into(out, self, all_params, images)
    }
}

impl Preview for Option<Linear> {
    open spec fn spec_images(
        &self,
        acc: Seq<ImageWithCoords>,
        all_params: Option<PreviewParams>,
        params: Seq<ParamType>,
        images: Seq<Image>,
    ) -> Option<Seq<ImageWithCoords>> {
        linear_items(acc, *self, first_u32(params))
    }

    fn get_images(
        &self,
        out: &mut Vec<ImageWithCoords>,
        all_params: &Option<PreviewParams>,
        params: &Vec<ParamType>,
        images: &Vec<Image>,
    ) -> (res: Result<(), PreviewError>) {
        linear_into(out, self, first_u32_of(params))
    }
}

impl Preview for Option<HeartProgress> {
    open spec fn spec_images(
        &self,
        acc: Seq<ImageWithCoords>,
        all_params: Option<PreviewParams>,
        params: Seq<ParamType>,
        images: Seq<Image>,
    ) -> Option<Seq<ImageWithCoords>> {
        heart_items(acc, *self, all_params)
    }

    fn get_images(
        &self,
        out: &mut Vec<ImageWithCoords>,
        all_params: &Option<PreviewParams>,
        params: &Vec<ParamType>,
        images: &Vec<Image>,
    ) -> (res: Result<(), PreviewError>) {
        heart_into(out, self, all_params)
    }
}

impl Preview for Option<WeekDaysIcons> {
    open spec fn spec_images(
        &self,
        acc: Seq<ImageWithCoords>,
        all_params: Option<PreviewParams>,
        params: Seq<ParamType>,
        images: Seq<Image>,
    ) -> Option<Seq<ImageWithCoords>> {
        week_days_items(acc, *self, all_params)
    }

    fn get_images(
        &self,
        out: &mut Vec<ImageWithCoords>,
        all_params: &Option<PreviewParams>,
        params: &Vec<ParamType>,
        images: &Vec<Image>,
    ) -> (res: Result<(), PreviewError>) {
        week_days_into(out, self, all_params)
    }
}

impl Preview for Option<Alarm> {
    open spec fn spec_images(
        &self,
        acc: Seq<ImageWithCoords>,
        all_params: Option<PreviewParams>,
        params: Seq<ParamType>,
        images: Seq<Image>,
    ) -> Option<Seq<ImageWithCoords>> {
        alarm_items(acc, *self, all_params, images)
    }

    fn get_images(
        &self,
        out: &mut Vec<ImageWithCoords>,
        all_params: &Option<PreviewParams>,
        params: &Vec<ParamType>,
        images: &Vec<Image>,
    ) -> (res: Result<(), PreviewError>) {
        alarm_into(out, self, all_params, images)
    }
}

impl Preview for Option<Status> {
    open spec fn spec_images(
        &self,
        acc: Seq<ImageWithCoords>,
        all_params: Option<PreviewParams>,
        params: Seq<ParamType>,
        images: Seq<Image>,
    ) -> Option<Seq<ImageWithCoords>> {
        Some(status_items(acc, *self, all_params))
    }

    fn get_images(
        &self,
        out: &mut Vec<ImageWithCoords>,
        all_params: &Option<PreviewParams>,
        params: &Vec<ParamType>,
        images: &Vec<Image>,
    ) -> (res: Result<(), PreviewError>) {
        status_into(out, self, all_params, images);
        Ok(())
    }
}

impl Preview for Option<Date> {
    open spec fn spec_images(
        &self,
        acc: Seq<ImageWithCoords>,
        all_params: Option<PreviewParams>,
        params: Seq<ParamType>,
        images: Seq<Image>,
    ) -> Option<Seq<ImageWithCoords>> {
        date_items(acc, *self, all_params, images)
    }

    fn get_images(
        &self,
        out: &mut Vec<ImageWithCoords>,
        all_params: &Option<PreviewParams>,
        params: &Vec<ParamType>,
        images: &Vec<Image>,
    ) -> (res: Result<(), PreviewError>) {
        date_into(out, self, all_params, images)
    }
}

impl Preview for Option<Weather> {
    open spec fn spec_images(
        &self,
        acc: Seq<ImageWithCoords>,
        all_params: Option<PreviewParams>,
        params: Seq<ParamType>,
        images: Seq<Image>,
    ) -> Option<Seq<ImageWithCoords>> {
        weather_items(acc, *self, all_params, images)
    }

    fn get_images(
        &self,
        out: &mut Vec<ImageWithCoords>,
        all_params: &Option<PreviewParams>,
        params: &Vec<ParamType>,
        images: &Vec<Image>,
    ) -> (res: Result<(), PreviewError>) {
        weather_into(out, self, all_params, images)
    }
}

impl Preview for Option<StepsProgress> {
    open spec fn spec_images(
        &self,
        acc: Seq<ImageWithCoords>,
        all_params: Option<PreviewParams>,
        params: Seq<ParamType>,
        images: Seq<Image>,
    ) -> Option<Seq<ImageWithCoords>> {
        steps_progress_items(acc, *self, all_params)
    }

    fn get_images(
        &self,
        out: &mut Vec<ImageWithCoords>,
        all_params: &Option<PreviewParams>,
        params: &Vec<ParamType>,
        images: &Vec<Image>,
    ) -> (res: Result<(), PreviewError>) {
        steps_progress_into(out, self, all_params)
    }
}

impl Preview for Option<Battery> {
    open spec fn spec_images(
        &self,
        acc: Seq<ImageWithCoords>,
        all_params: Option<PreviewParams>,
        params: Seq<ParamType>,
        images: Seq<Image>,
    ) -> Option<Seq<ImageWithCoords>> {
        battery_items(acc, *self, all_params, images)
    }

    fn get_images(
        &self,
        out: &mut Vec<ImageWithCoords>,
        all_params: &Option<PreviewParams>,
        params: &Vec<ParamType>,
        images: &Vec<Image>,
    ) -> (res: Result<(), PreviewError>) {
        battery_into(out, self, all_params, images)
    }
}

impl Preview for Option<AnalogDialFace> {
    open spec fn spec_images(
        &self,
        acc: Seq<ImageWithCoords>,
        all_params: Option<PreviewParams>,
        params: Seq<ParamType>,
        images: Seq<Image>,
    ) -> Option<Seq<ImageWithCoords>> {
        Some(analog_items(acc, *self, all_params))
    }

    fn get_images(
        &self,
        out: &mut Vec<ImageWithCoords>,
        all_params: &Option<PreviewParams>,
        params: &Vec<ParamType>,
        images: &Vec<Image>,
    ) -> (res: Result<(), PreviewError>) {
        analog_into(out, self, all_params);
        Ok(())
    }
}

impl Preview for Option<Other> {
    open spec fn spec_images(
        &self,
        acc: Seq<ImageWithCoords>,
        all_params: Option<PreviewParams>,
        params: Seq<ParamType>,
        images: Seq<Image>,
    ) -> Option<Seq<ImageWithCoords>> {
        other_items(acc, *self, all_params)
    }

    fn get_images(
        &self,
        out: &mut Vec<ImageWithCoords>,
        all_params: &Option<PreviewParams>,
        params: &Vec<ParamType>,
        images: &Vec<Image>,
    ) -> (res: Result<(), PreviewError>) {
        other_into(out, self, all_params)
    }
}

impl Preview for MiBandParams {
    open spec fn spec_images(
        &self,
        acc: Seq<ImageWithCoords>,
        all_params: Option<PreviewParams>,
        params: Seq<ParamType>,
        images: Seq<Image>,
    ) -> Option<Seq<ImageWithCoords>> {
        params_items(acc, *self, all_params, images)
    }

    fn get_images(
        &self,
        out: &mut Vec<ImageWithCoords>,
        all_params: &Option<PreviewParams>,
        params: &Vec<ParamType>,
        images: &Vec<Image>,
    ) -> (res: Result<(), PreviewError>) {
        first_into(out, self, all_params, images)?;
        second_into(out, self, all_params, images)
    }
}

impl Preview for Option<MiBandParams> {
    open spec fn spec_images(
        &self,
        acc: Seq<ImageWithCoords>,
        all_params: Option<PreviewParams>,
        params: Seq<ParamType>,
        images: Seq<Image>,
    ) -> Option<Seq<ImageWithCoords>> {
        match *self {
            Some(p) => params_items(acc, p, all_params, images),
            None => Some(acc),
        }
    }

    fn get_images(
        &self,
        out: &mut Vec<ImageWithCoords>,
        all_params: &Option<PreviewParams>,
        params: &Vec<ParamType>,
        images: &Vec<Image>,
    ) -> (res: Result<(), PreviewError>) {
        match self {
            Some(p) => p.get_images(out, all_params, params, images),
            None => Ok(()),
        }
    }
}

impl Watchface<MiBandParams> {
    /// The preview of the watchface showing the values `params`, or the
    /// error where it cannot be made; see `preview_items`.
    pub fn try_generate_preview(&self, params: Option<PreviewParams>) -> (r: Result<
        Vec<ImageWithCoords>,
        PreviewError,
    >)
        requires
            weekday_in_range(params),
        ensures
            match preview_items(*self, params) {
                Some(s) => r matches Ok(v) && v@ == s,
                None => r is Err,
            },
    {
        let mut res: Vec<ImageWithCoords> = Vec::new();
        self.parameters.get_images(&mut res, &params, &Vec::new(), &self.images)?;
        Ok(res)
    }

    /// The preview of the watchface showing the values `params`, where it can
    /// be made; see `preview_items`.
    pub fn generate_preview(&self, params: Option<PreviewParams>) -> (r: Vec<ImageWithCoords>)
        requires
            weekday_in_range(params),
            preview_items(*self, params) is Some,
        ensures
            Some(r@) == preview_items(*self, params),
    {
        match self.try_generate_preview(params) {
            Ok(v) => v,
            Err(_) => Vec::new(),
        }
    }
}

/// Whether the image `i` after `start` has an index that fits `u32`, the
/// count taken modulo 2^32.
pub open spec fn offset_fits(start: u32, i: int) -> bool {
    start + (i as u32) <= u32::MAX
}

impl Linear {
    /// The segments of the bar up to the `step`-th, each with the image that
    /// many after the first: `None` where the bar has no such segment or an
    /// index overflows `u32`; nothing where it has no first image.
    pub open spec fn progress_items(self, step: usize) -> Option<Seq<ImageWithCoords>> {
        match self.start_image_index {
            None => Some(Seq::empty()),
            Some(start) => if step < self.segments@.len() && forall|i: int|
                0 <= i <= step ==> #[trigger] offset_fits(start.0, i) {
                Some(
                    Seq::new(
                        (step + 1) as nat,
                        |i: int|
                            id_at(
                                self.segments@[i].x,
                                self.segments@[i].y,
                                (start.0 + (i as u32)) as u32,
                            ),
                    ),
                )
            } else {
                None
            },
        }
    }

    /// See `progress_items`.
    pub fn progress_images(&self, step: usize) -> (r: Result<Vec<ImageWithCoords>, PreviewError>)
        ensures
            match self.progress_items(step) {
                Some(s) => r matches Ok(v) && v@ == s,
                None => r is Err,
            },
    {
        let mut res: Vec<ImageWithCoords> = Vec::new();
        if let Some(start) = &self.start_image_index {
            let n = self.segments.len();
            if step >= n {
                return Err(PreviewError::Invalid);
            }
            let mut i: usize = 0;
            while i <= step
                invariant
                    self.start_image_index == Some(*start),
                    step < n,
                    n == self.segments@.len(),
                    i <= step + 1,
                    res@.len() == i,
                    forall|j: int|
                        0 <= j < i ==> #[trigger] res@[j] == id_at(
                            self.segments@[j].x,
                            self.segments@[j].y,
                            (start.0 + (j as u32)) as u32,
                        ),
                    forall|j: int| 0 <= j < i ==> #[trigger] offset_fits(start.0, j),
                decreases step + 1 - i,
            {
                let offset: u32 = #[verifier::truncate] (i as u32);
                match start.0.checked_add(offset) {
                    Some(id) => {
                        res.push(
                            ImageWithCoords {
                                x: self.segments[i].x,
                                y: self.segments[i].y,
                                image_type: ImageType::Id(ImgId(id)),
                            },
                        );
                    },
                    None => {
                        assert(!offset_fits(start.0, i as int));
                        return Err(PreviewError::Invalid);
                    },
                }
                i = i + 1;
            }
            assert(res@ =~= self.progress_items(step).unwrap());
        }
        Ok(res)
    }
}

/// The image of a range at a value is the image that many after its first,
/// at the coordinates of the range, where both are given and the index fits
/// `u32`; nothing where the range, its first image or the value is missing.
pub proof fn law_range_image(acc: Seq<ImageWithCoords>, r: Option<ImageRange>, value: Option<u32>)
    ensures
        r matches Some(range) ==> range.image_index matches Some(b) ==> value matches Some(v) ==> {
            &&& b.0 + v <= u32::MAX ==> range_items(acc, r, value) == Some(
                acc.push(ImageWithCoords { x: range.x, y: range.y, image_type: ImageType::Id(ImgId((b.0 + v) as u32)) }),
            )
            &&& b.0 + v > u32::MAX ==> range_items(acc, r, value) is None
        },
        (r is None || r.unwrap().image_index is None || value is None) ==> range_items(acc, r, value)
            == Some(acc),
{
}

/// The weekday icon shown is that of the weekday, Monday being 0; a weekday
/// past 6 cannot be shown.
pub proof fn law_week_day_icon(acc: Seq<ImageWithCoords>, w: WeekDaysIcons, p: PreviewParams)
    ensures
        p.weekday matches Some(d) ==> {
            &&& d <= 6 ==> week_days_items(acc, Some(w), Some(p)) == Some(
                acc + reference_items(
                    seq![w.monday, w.tuesday, w.wednesday, w.thursday, w.friday, w.saturday, w.sunday][d as int],
                ),
            )
            &&& d > 6 ==> week_days_items(acc, Some(w), Some(p)) is None
        },
        p.weekday is None ==> week_days_items(acc, Some(w), Some(p)) == Some(acc),
{
    if let Some(d) = p.weekday {
        if d <= 6 {
            let days = seq![w.monday, w.tuesday, w.wednesday, w.thursday, w.friday, w.saturday, w.sunday];
            assert(day_icon(w, d) == days[d as int]);
        }
    }
}

} // verus!
