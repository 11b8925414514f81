use vstd::prelude::*;
use crate::bytes::ParseError;
use crate::params::{Param, PValue};
use crate::transform::{
    Transform, opt_view, seq_view, spec_option, spec_list, transform_option, transform_list, spec_i32_field,
    spec_u32_field, spec_bool_field, spec_img_id_field, spec_opt_alignment_field, spec_alignment_field,
    spec_color_field, transform_i32, transform_u32, transform_bool, transform_img_id,
    transform_opt_alignment, transform_alignment, transform_color,
};
use crate::common::{ImgId, Color, WatchfaceParams};
use crate::elements::{ImageReference, ImageRange, StatusImage, Coordinates, NumberInRect, TemperatureType, VectorShape, VectorShapeView};

verus! {

/// The animations of a watchface.
#[derive(Debug, PartialEq, Default)]
pub struct Animations(pub Vec<Animation>);

impl View for Animations {
    type V = Seq<Animation>;

    open spec fn view(&self) -> Seq<Animation> {
        seq_view(self.0@)
    }
}

/// The parameters of a Mi Band watchface.
#[derive(Debug, PartialEq, Default)]
pub struct MiBandParams {
    pub background: Option<Background>,
    pub time: Option<Time>,
    pub activity: Option<Activity>,
    pub date: Option<Date>,
    pub weather: Option<Weather>,
    pub steps_progress: Option<StepsProgress>,
    pub status: Option<Status>,
    pub battery: Option<Battery>,
    pub analog_dial_face: Option<AnalogDialFace>,
    pub other: Option<Other>,
    pub heart_progress: Option<HeartProgress>,
    pub week_days_icons: Option<WeekDaysIcons>,
    pub calories_progress: Option<CaloriesProgress>,
    pub alarm: Option<Alarm>,
    pub status2: Option<Status>,
    pub unknown: Option<UnknownStruct>,
    pub lunar_date: Option<LunarDate>,
}

/// The mathematical value of a `MiBandParams`.
pub struct MiBandParamsView {
    pub background: Option<Background>,
    pub time: Option<Time>,
    pub activity: Option<Activity>,
    pub date: Option<Date>,
    pub weather: Option<Weather>,
    pub steps_progress: Option<StepsProgressView>,
    pub status: Option<Status>,
    pub battery: Option<BatteryView>,
    pub analog_dial_face: Option<AnalogDialFaceView>,
    pub other: Option<OtherView>,
    pub heart_progress: Option<HeartProgressView>,
    pub week_days_icons: Option<WeekDaysIcons>,
    pub calories_progress: Option<CaloriesProgressView>,
    pub alarm: Option<Alarm>,
    pub status2: Option<Status>,
    pub unknown: Option<UnknownStruct>,
    pub lunar_date: Option<LunarDate>,
}

impl View for MiBandParams {
    type V = MiBandParamsView;

    open spec fn view(&self) -> MiBandParamsView {
        MiBandParamsView {
            background: opt_view(self.background),
            time: opt_view(self.time),
            activity: opt_view(self.activity),
            date: opt_view(self.date),
            weather: opt_view(self.weather),
            steps_progress: opt_view(self.steps_progress),
            status: opt_view(self.status),
            battery: opt_view(self.battery),
            analog_dial_face: opt_view(self.analog_dial_face),
            other: opt_view(self.other),
            heart_progress: opt_view(self.heart_progress),
            week_days_icons: opt_view(self.week_days_icons),
            calories_progress: opt_view(self.calories_progress),
            alarm: opt_view(self.alarm),
            status2: opt_view(self.status2),
            unknown: opt_view(self.unknown),
            lunar_date: opt_view(self.lunar_date),
        }
    }
}

impl Transform for MiBandParams {
    open spec fn spec_blank() -> MiBandParamsView {
        MiBandParamsView {
            background: None,
            time: None,
            activity: None,
            date: None,
            weather: None,
            steps_progress: None,
            status: None,
            battery: None,
            analog_dial_face: None,
            other: None,
            heart_progress: None,
            week_days_icons: None,
            calories_progress: None,
            alarm: None,
            status2: None,
            unknown: None,
            lunar_date: None,
        }
    }

    open spec fn spec_apply(v: MiBandParamsView, key: u8, vals: Seq<PValue>) -> Option<MiBandParamsView> {
        if key == 2 {
            match spec_option::<Background>(v.background, vals) {
                Some(x) => Some(MiBandParamsView {
                    background: x,
                    time: v.time,
                    activity: v.activity,
                    date: v.date,
                    weather: v.weather,
                    steps_progress: v.steps_progress,
                    status: v.status,
                    battery: v.battery,
                    analog_dial_face: v.analog_dial_face,
                    other: v.other,
                    heart_progress: v.heart_progress,
                    week_days_icons: v.week_days_icons,
                    calories_progress: v.calories_progress,
                    alarm: v.alarm,
                    status2: v.status2,
                    unknown: v.unknown,
                    lunar_date: v.lunar_date,
                }),
                None => None,
            }
        } else if key == 3 {
            match spec_option::<Time>(v.time, vals) {
                Some(x) => Some(MiBandParamsView {
                    background: v.background,
                    time: x,
                    activity: v.activity,
                    date: v.date,
                    weather: v.weather,
                    steps_progress: v.steps_progress,
                    status: v.status,
                    battery: v.battery,
                    analog_dial_face: v.analog_dial_face,
                    other: v.other,
                    heart_progress: v.heart_progress,
                    week_days_icons: v.week_days_icons,
                    calories_progress: v.calories_progress,
                    alarm: v.alarm,
                    status2: v.status2,
                    unknown: v.unknown,
                    lunar_date: v.lunar_date,
                }),
                None => None,
            }
        } else if key == 4 {
            match spec_option::<Activity>(v.activity, vals) {
                Some(x) => Some(MiBandParamsView {
                    background: v.background,
                    time: v.time,
                    activity: x,
                    date: v.date,
                    weather: v.weather,
                    steps_progress: v.steps_progress,
                    status: v.status,
                    battery: v.battery,
                    analog_dial_face: v.analog_dial_face,
                    other: v.other,
                    heart_progress: v.heart_progress,
                    week_days_icons: v.week_days_icons,
                    calories_progress: v.calories_progress,
                    alarm: v.alarm,
                    status2: v.status2,
                    unknown: v.unknown,
                    lunar_date: v.lunar_date,
                }),
                None => None,
            }
        } else if key == 5 {
            match spec_option::<Date>(v.date, vals) {
                Some(x) => Some(MiBandParamsView {
                    background: v.background,
                    time: v.time,
                    activity: v.activity,
                    date: x,
                    weather: v.weather,
                    steps_progress: v.steps_progress,
                    status: v.status,
                    battery: v.battery,
                    analog_dial_face: v.analog_dial_face,
                    other: v.other,
                    heart_progress: v.heart_progress,
                    week_days_icons: v.week_days_icons,
                    calories_progress: v.calories_progress,
                    alarm: v.alarm,
                    status2: v.status2,
                    unknown: v.unknown,
                    lunar_date: v.lunar_date,
                }),
                None => None,
            }
        } else if key == 6 {
            match spec_option::<Weather>(v.weather, vals) {
                Some(x) => Some(MiBandParamsView {
                    background: v.background,
                    time: v.time,
                    activity: v.activity,
                    date: v.date,
                    weather: x,
                    steps_progress: v.steps_progress,
                    status: v.status,
                    battery: v.battery,
                    analog_dial_face: v.analog_dial_face,
                    other: v.other,
                    heart_progress: v.heart_progress,
                    week_days_icons: v.week_days_icons,
                    calories_progress: v.calories_progress,
                    alarm: v.alarm,
                    status2: v.status2,
                    unknown: v.unknown,
                    lunar_date: v.lunar_date,
                }),
                None => None,
            }
        } else if key == 7 {
            match spec_option::<StepsProgress>(v.steps_progress, vals) {
                Some(x) => Some(MiBandParamsView {
                    background: v.background,
                    time: v.time,
                    activity: v.activity,
                    date: v.date,
                    weather: v.weather,
                    steps_progress: x,
                    status: v.status,
                    battery: v.battery,
                    analog_dial_face: v.analog_dial_face,
                    other: v.other,
                    heart_progress: v.heart_progress,
                    week_days_icons: v.week_days_icons,
                    calories_progress: v.calories_progress,
                    alarm: v.alarm,
                    status2: v.status2,
                    unknown: v.unknown,
                    lunar_date: v.lunar_date,
                }),
                None => None,
            }
        } else if key == 8 {
            match spec_option::<Status>(v.status, vals) {
                Some(x) => Some(MiBandParamsView {
                    background: v.background,
                    time: v.time,
                    activity: v.activity,
                    date: v.date,
                    weather: v.weather,
                    steps_progress: v.steps_progress,
                    status: x,
                    battery: v.battery,
                    analog_dial_face: v.analog_dial_face,
                    other: v.other,
                    heart_progress: v.heart_progress,
                    week_days_icons: v.week_days_icons,
                    calories_progress: v.calories_progress,
                    alarm: v.alarm,
                    status2: v.status2,
                    unknown: v.unknown,
                    lunar_date: v.lunar_date,
                }),
                None => None,
            }
        } else if key == 9 {
            match spec_option::<Battery>(v.battery, vals) {
                Some(x) => Some(MiBandParamsView {
                    background: v.background,
                    time: v.time,
                    activity: v.activity,
                    date: v.date,
                    weather: v.weather,
                    steps_progress: v.steps_progress,
                    status: v.status,
                    battery: x,
                    analog_dial_face: v.analog_dial_face,
                    other: v.other,
                    heart_progress: v.heart_progress,
                    week_days_icons: v.week_days_icons,
                    calories_progress: v.calories_progress,
                    alarm: v.alarm,
                    status2: v.status2,
                    unknown: v.unknown,
                    lunar_date: v.lunar_date,
                }),
                None => None,
            }
        } else if key == 10 {
            match spec_option::<AnalogDialFace>(v.analog_dial_face, vals) {
                Some(x) => Some(MiBandParamsView {
                    background: v.background,
                    time: v.time,
                    activity: v.activity,
                    date: v.date,
                    weather: v.weather,
                    steps_progress: v.steps_progress,
                    status: v.status,
                    battery: v.battery,
                    analog_dial_face: x,
                    other: v.other,
                    heart_progress: v.heart_progress,
                    week_days_icons: v.week_days_icons,
                    calories_progress: v.calories_progress,
                    alarm: v.alarm,
                    status2: v.status2,
                    unknown: v.unknown,
                    lunar_date: v.lunar_date,
                }),
                None => None,
            }
        } else if key == 11 {
            match spec_option::<Other>(v.other, vals) {
                Some(x) => Some(MiBandParamsView {
                    background: v.background,
                    time: v.time,
                    activity: v.activity,
                    date: v.date,
                    weather: v.weather,
                    steps_progress: v.steps_progress,
                    status: v.status,
                    battery: v.battery,
                    analog_dial_face: v.analog_dial_face,
                    other: x,
                    heart_progress: v.heart_progress,
                    week_days_icons: v.week_days_icons,
                    calories_progress: v.calories_progress,
                    alarm: v.alarm,
                    status2: v.status2,
                    unknown: v.unknown,
                    lunar_date: v.lunar_date,
                }),
                None => None,
            }
        } else if key == 12 {
            match spec_option::<HeartProgress>(v.heart_progress, vals) {
                Some(x) => Some(MiBandParamsView {
                    background: v.background,
                    time: v.time,
                    activity: v.activity,
                    date: v.date,
                    weather: v.weather,
                    steps_progress: v.steps_progress,
                    status: v.status,
                    battery: v.battery,
                    analog_dial_face: v.analog_dial_face,
                    other: v.other,
                    heart_progress: x,
                    week_days_icons: v.week_days_icons,
                    calories_progress: v.calories_progress,
                    alarm: v.alarm,
                    status2: v.status2,
                    unknown: v.unknown,
                    lunar_date: v.lunar_date,
                }),
                None => None,
            }
        } else if key == 14 {
            match spec_option::<WeekDaysIcons>(v.week_days_icons, vals) {
                Some(x) => Some(MiBandParamsView {
                    background: v.background,
                    time: v.time,
                    activity: v.activity,
                    date: v.date,
                    weather: v.weather,
                    steps_progress: v.steps_progress,
                    status: v.status,
                    battery: v.battery,
                    analog_dial_face: v.analog_dial_face,
                    other: v.other,
                    heart_progress: v.heart_progress,
                    week_days_icons: x,
                    calories_progress: v.calories_progress,
                    alarm: v.alarm,
                    status2: v.status2,
                    unknown: v.unknown,
                    lunar_date: v.lunar_date,
                }),
                None => None,
            }
        } else if key == 15 {
            match spec_option::<CaloriesProgress>(v.calories_progress, vals) {
                Some(x) => Some(MiBandParamsView {
                    background: v.background,
                    time: v.time,
                    activity: v.activity,
                    date: v.date,
                    weather: v.weather,
                    steps_progress: v.steps_progress,
                    status: v.status,
                    battery: v.battery,
                    analog_dial_face: v.analog_dial_face,
                    other: v.other,
                    heart_progress: v.heart_progress,
                    week_days_icons: v.week_days_icons,
                    calories_progress: x,
                    alarm: v.alarm,
                    status2: v.status2,
                    unknown: v.unknown,
                    lunar_date: v.lunar_date,
                }),
                None => None,
            }
        } else if key == 18 {
            match spec_option::<Alarm>(v.alarm, vals) {
                Some(x) => Some(MiBandParamsView {
                    background: v.background,
                    time: v.time,
                    activity: v.activity,
                    date: v.date,
                    weather: v.weather,
                    steps_progress: v.steps_progress,
                    status: v.status,
                    battery: v.battery,
                    analog_dial_face: v.analog_dial_face,
                    other: v.other,
                    heart_progress: v.heart_progress,
                    week_days_icons: v.week_days_icons,
                    calories_progress: v.calories_progress,
                    alarm: x,
                    status2: v.status2,
                    unknown: v.unknown,
                    lunar_date: v.lunar_date,
                }),
                None => None,
            }
        } else if key == 20 {
            match spec_option::<Status>(v.status2, vals) {
                Some(x) => Some(MiBandParamsView {
                    background: v.background,
                    time: v.time,
                    activity: v.activity,
                    date: v.date,
                    weather: v.weather,
                    steps_progress: v.steps_progress,
                    status: v.status,
                    battery: v.battery,
                    analog_dial_face: v.analog_dial_face,
                    other: v.other,
                    heart_progress: v.heart_progress,
                    week_days_icons: v.week_days_icons,
                    calories_progress: v.calories_progress,
                    alarm: v.alarm,
                    status2: x,
                    unknown: v.unknown,
                    lunar_date: v.lunar_date,
                }),
                None => None,
            }
        } else if key == 21 {
            match spec_option::<UnknownStruct>(v.unknown, vals) {
                Some(x) => Some(MiBandParamsView {
                    background: v.background,
                    time: v.time,
                    activity: v.activity,
                    date: v.date,
                    weather: v.weather,
                    steps_progress: v.steps_progress,
                    status: v.status,
                    battery: v.battery,
                    analog_dial_face: v.analog_dial_face,
                    other: v.other,
                    heart_progress: v.heart_progress,
                    week_days_icons: v.week_days_icons,
                    calories_progress: v.calories_progress,
                    alarm: v.alarm,
                    status2: v.status2,
                    unknown: x,
                    lunar_date: v.lunar_date,
                }),
                None => None,
            }
        } else if key == 22 {
            match spec_option::<LunarDate>(v.lunar_date, vals) {
                Some(x) => Some(MiBandParamsView {
                    background: v.background,
                    time: v.time,
                    activity: v.activity,
                    date: v.date,
                    weather: v.weather,
                    steps_progress: v.steps_progress,
                    status: v.status,
                    battery: v.battery,
                    analog_dial_face: v.analog_dial_face,
                    other: v.other,
                    heart_progress: v.heart_progress,
                    week_days_icons: v.week_days_icons,
                    calories_progress: v.calories_progress,
                    alarm: v.alarm,
                    status2: v.status2,
                    unknown: v.unknown,
                    lunar_date: x,
                }),
                None => None,
            }
        } else {
            Some(v)
        }
    }

    fn blank() -> (r: Self) {
        let r = MiBandParams {
            background: None,
            time: None,
            activity: None,
            date: None,
            weather: None,
            steps_progress: None,
            status: None,
            battery: None,
            analog_dial_face: None,
            other: None,
            heart_progress: None,
            week_days_icons: None,
            calories_progress: None,
            alarm: None,
            status2: None,
            unknown: None,
            lunar_date: None,
        };
        r
    }

    fn apply(&mut self, key: u8, vals: &Vec<Param>) -> (r: Result<(), ParseError>) {
        if key == 2 {
            transform_option::<Background>(&mut self.background, vals)
        } else if key == 3 {
            transform_option::<Time>(&mut self.time, vals)
        } else if key == 4 {
            transform_option::<Activity>(&mut self.activity, vals)
        } else if key == 5 {
            transform_option::<Date>(&mut self.date, vals)
        } else if key == 6 {
            transform_option::<Weather>(&mut self.weather, vals)
        } else if key == 7 {
            transform_option::<StepsProgress>(&mut self.steps_progress, vals)
        } else if key == 8 {
            transform_option::<Status>(&mut self.status, vals)
        } else if key == 9 {
            transform_option::<Battery>(&mut self.battery, vals)
        } else if key == 10 {
            transform_option::<AnalogDialFace>(&mut self.analog_dial_face, vals)
        } else if key == 11 {
            transform_option::<Other>(&mut self.other, vals)
        } else if key == 12 {
            transform_option::<HeartProgress>(&mut self.heart_progress, vals)
        } else if key == 14 {
            transform_option::<WeekDaysIcons>(&mut self.week_days_icons, vals)
        } else if key == 15 {
            transform_option::<CaloriesProgress>(&mut self.calories_progress, vals)
        } else if key == 18 {
            transform_option::<Alarm>(&mut self.alarm, vals)
        } else if key == 20 {
            transform_option::<Status>(&mut self.status2, vals)
        } else if key == 21 {
            transform_option::<UnknownStruct>(&mut self.unknown, vals)
        } else if key == 22 {
            transform_option::<LunarDate>(&mut self.lunar_date, vals)
        } else {
            Ok(())
        }
    }
}

/// Filling a `MiBandParams` with entries: a field whose key occurs in no entry
/// keeps its value; one whose key occurs holds the value read from the last
/// entry under it, or, for an element field, read into its value from
/// before where no key occurs twice.
pub proof fn law_mi_band_params_fields(v: MiBandParamsView, es: Seq<(u8, Seq<PValue>)>)
    ensures
        crate::transform::spec_fold::<MiBandParams>(v, es) matches Some(r) ==> {
            &&& crate::params::key_index(es, 2) < 0 ==> r.background == v.background
            &&& crate::params::distinct_keys(es) && crate::params::key_index(es, 2) >= 0 ==> r.background == spec_option::<Background>(v.background, es[crate::params::key_index(es, 2)].1).unwrap()
            &&& crate::params::key_index(es, 3) < 0 ==> r.time == v.time
            &&& crate::params::distinct_keys(es) && crate::params::key_index(es, 3) >= 0 ==> r.time == spec_option::<Time>(v.time, es[crate::params::key_index(es, 3)].1).unwrap()
            &&& crate::params::key_index(es, 4) < 0 ==> r.activity == v.activity
            &&& crate::params::distinct_keys(es) && crate::params::key_index(es, 4) >= 0 ==> r.activity == spec_option::<Activity>(v.activity, es[crate::params::key_index(es, 4)].1).unwrap()
            &&& crate::params::key_index(es, 5) < 0 ==> r.date == v.date
            &&& crate::params::distinct_keys(es) && crate::params::key_index(es, 5) >= 0 ==> r.date == spec_option::<Date>(v.date, es[crate::params::key_index(es, 5)].1).unwrap()
            &&& crate::params::key_index(es, 6) < 0 ==> r.weather == v.weather
            &&& crate::params::distinct_keys(es) && crate::params::key_index(es, 6) >= 0 ==> r.weather == spec_option::<Weather>(v.weather, es[crate::params::key_index(es, 6)].1).unwrap()
            &&& crate::params::key_index(es, 7) < 0 ==> r.steps_progress == v.steps_progress
            &&& crate::params::distinct_keys(es) && crate::params::key_index(es, 7) >= 0 ==> r.steps_progress == spec_option::<StepsProgress>(v.steps_progress, es[crate::params::key_index(es, 7)].1).unwrap()
            &&& crate::params::key_index(es, 8) < 0 ==> r.status == v.status
            &&& crate::params::distinct_keys(es) && crate::params::key_index(es, 8) >= 0 ==> r.status == spec_option::<Status>(v.status, es[crate::params::key_index(es, 8)].1).unwrap()
            &&& crate::params::key_index(es, 9) < 0 ==> r.battery == v.battery
            &&& crate::params::distinct_keys(es) && crate::params::key_index(es, 9) >= 0 ==> r.battery == spec_option::<Battery>(v.battery, es[crate::params::key_index(es, 9)].1).unwrap()
            &&& crate::params::key_index(es, 10) < 0 ==> r.analog_dial_face == v.analog_dial_face
            &&& crate::params::distinct_keys(es) && crate::params::key_index(es, 10) >= 0 ==> r.analog_dial_face == spec_option::<AnalogDialFace>(v.analog_dial_face, es[crate::params::key_index(es, 10)].1).unwrap()
            &&& crate::params::key_index(es, 11) < 0 ==> r.other == v.other
            &&& crate::params::distinct_keys(es) && crate::params::key_index(es, 11) >= 0 ==> r.other == spec_option::<Other>(v.other, es[crate::params::key_index(es, 11)].1).unwrap()
            &&& crate::params::key_index(es, 12) < 0 ==> r.heart_progress == v.heart_progress
            &&& crate::params::distinct_keys(es) && crate::params::key_index(es, 12) >= 0 ==> r.heart_progress == spec_option::<HeartProgress>(v.heart_progress, es[crate::params::key_index(es, 12)].1).unwrap()
            &&& crate::params::key_index(es, 14) < 0 ==> r.week_days_icons == v.week_days_icons
            &&& crate::params::distinct_keys(es) && crate::params::key_index(es, 14) >= 0 ==> r.week_days_icons == spec_option::<WeekDaysIcons>(v.week_days_icons, es[crate::params::key_index(es, 14)].1).unwrap()
            &&& crate::params::key_index(es, 15) < 0 ==> r.calories_progress == v.calories_progress
            &&& crate::params::distinct_keys(es) && crate::params::key_index(es, 15) >= 0 ==> r.calories_progress == spec_option::<CaloriesProgress>(v.calories_progress, es[crate::params::key_index(es, 15)].1).unwrap()
            &&& crate::params::key_index(es, 18) < 0 ==> r.alarm == v.alarm
            &&& crate::params::distinct_keys(es) && crate::params::key_index(es, 18) >= 0 ==> r.alarm == spec_option::<Alarm>(v.alarm, es[crate::params::key_index(es, 18)].1).unwrap()
            &&& crate::params::key_index(es, 20) < 0 ==> r.status2 == v.status2
            &&& crate::params::distinct_keys(es) && crate::params::key_index(es, 20) >= 0 ==> r.status2 == spec_option::<Status>(v.status2, es[crate::params::key_index(es, 20)].1).unwrap()
            &&& crate::params::key_index(es, 21) < 0 ==> r.unknown == v.unknown
            &&& crate::params::distinct_keys(es) && crate::params::key_index(es, 21) >= 0 ==> r.unknown == spec_option::<UnknownStruct>(v.unknown, es[crate::params::key_index(es, 21)].1).unwrap()
            &&& crate::params::key_index(es, 22) < 0 ==> r.lunar_date == v.lunar_date
            &&& crate::params::distinct_keys(es) && crate::params::key_index(es, 22) >= 0 ==> r.lunar_date == spec_option::<LunarDate>(v.lunar_date, es[crate::params::key_index(es, 22)].1).unwrap()
        },
    decreases es.len(),
{
    if es.len() > 0 {
        crate::transform::lemma_fold_last::<MiBandParams>(v, es);
        law_mi_band_params_fields(v, es.drop_last());
        let d = es.drop_last();
        assert(crate::params::distinct_keys(es) ==> crate::params::distinct_keys(d));
        assert(es[es.len() - 1] == es.last());
        assert forall|k: u8| es.last().0 != k implies crate::params::key_index(es, k) == crate::params::key_index(d, k) && (crate::params::key_index(d, k) >= 0
            ==> es[crate::params::key_index(d, k)] == d[crate::params::key_index(d, k)]) by {
            crate::params::lemma_key_index_range(d, k);
        }
        assert forall|k: u8| es.last().0 == k && crate::params::distinct_keys(es) implies crate::params::key_index(d, k) < 0 by {
            crate::params::lemma_key_index_range(d, k);
            if crate::params::key_index(d, k) >= 0 {
                assert(es[crate::params::key_index(d, k)].0 == k);
            }
        }
    }
}

/// The parameters of Background.
#[derive(Debug, PartialEq, Default)]
pub struct Background {
    pub image: Option<ImageReference>,
    pub color: Option<Color>,
    pub preview_en: Option<ImageReference>,
    pub preview_cn: Option<ImageReference>,
    pub preview_cn2: Option<ImageReference>,
}

impl View for Background {
    type V = Background;

    open spec fn view(&self) -> Background {
        *self
    }
}

impl Transform for Background {
    open spec fn spec_blank() -> Background {
        Background {
            image: None,
            color: None,
            preview_en: None,
            preview_cn: None,
            preview_cn2: None,
        }
    }

    open spec fn spec_apply(v: Background, key: u8, vals: Seq<PValue>) -> Option<Background> {
        if key == 1 {
            match spec_option::<ImageReference>(v.image, vals) {
                Some(x) => Some(Background {
                    image: x,
                    color: v.color,
                    preview_en: v.preview_en,
                    preview_cn: v.preview_cn,
                    preview_cn2: v.preview_cn2,
                }),
                None => None,
            }
        } else if key == 2 {
            match spec_color_field(vals) {
                Some(x) => Some(Background {
                    image: v.image,
                    color: x,
                    preview_en: v.preview_en,
                    preview_cn: v.preview_cn,
                    preview_cn2: v.preview_cn2,
                }),
                None => None,
            }
        } else if key == 3 {
            match spec_option::<ImageReference>(v.preview_en, vals) {
                Some(x) => Some(Background {
                    image: v.image,
                    color: v.color,
                    preview_en: x,
                    preview_cn: v.preview_cn,
                    preview_cn2: v.preview_cn2,
                }),
                None => None,
            }
        } else if key == 4 {
            match spec_option::<ImageReference>(v.preview_cn, vals) {
                Some(x) => Some(Background {
                    image: v.image,
                    color: v.color,
                    preview_en: v.preview_en,
                    preview_cn: x,
                    preview_cn2: v.preview_cn2,
                }),
                None => None,
            }
        } else if key == 5 {
            match spec_option::<ImageReference>(v.preview_cn2, vals) {
                Some(x) => Some(Background {
                    image: v.image,
                    color: v.color,
                    preview_en: v.preview_en,
                    preview_cn: v.preview_cn,
                    preview_cn2: x,
                }),
                None => None,
            }
        } else {
            Some(v)
        }
    }

    fn blank() -> (r: Self) {
        let r = Background {
            image: None,
            color: None,
            preview_en: None,
            preview_cn: None,
            preview_cn2: None,
        };
        r
    }

    fn apply(&mut self, key: u8, vals: &Vec<Param>) -> (r: Result<(), ParseError>) {
        if key == 1 {
            transform_option::<ImageReference>(&mut self.image, vals)
        } else if key == 2 {
            transform_color(&mut self.color, vals)
        } else if key == 3 {
            transform_option::<ImageReference>(&mut self.preview_en, vals)
        } else if key == 4 {
            transform_option::<ImageReference>(&mut self.preview_cn, vals)
        } else if key == 5 {
            transform_option::<ImageReference>(&mut self.preview_cn2, vals)
        } else {
            Ok(())
        }
    }
}

/// Filling a `Background` with entries: a field whose key occurs in no entry
/// keeps its value; one whose key occurs holds the value read from the last
/// entry under it, or, for an element field, read into its value from
/// before where no key occurs twice.
pub proof fn law_background_fields(v: Background, es: Seq<(u8, Seq<PValue>)>)
    ensures
        crate::transform::spec_fold::<Background>(v, es) matches Some(r) ==> {
            &&& crate::params::key_index(es, 1) < 0 ==> r.image == v.image
            &&& crate::params::distinct_keys(es) && crate::params::key_index(es, 1) >= 0 ==> r.image == spec_option::<ImageReference>(v.image, es[crate::params::key_index(es, 1)].1).unwrap()
            &&& crate::params::key_index(es, 2) < 0 ==> r.color == v.color
            &&& crate::params::key_index(es, 2) >= 0 ==> r.color == spec_color_field(es[crate::params::key_index(es, 2)].1).unwrap()
            &&& crate::params::key_index(es, 3) < 0 ==> r.preview_en == v.preview_en
            &&& crate::params::distinct_keys(es) && crate::params::key_index(es, 3) >= 0 ==> r.preview_en == spec_option::<ImageReference>(v.preview_en, es[crate::params::key_index(es, 3)].1).unwrap()
            &&& crate::params::key_index(es, 4) < 0 ==> r.preview_cn == v.preview_cn
            &&& crate::params::distinct_keys(es) && crate::params::key_index(es, 4) >= 0 ==> r.preview_cn == spec_option::<ImageReference>(v.preview_cn, es[crate::params::key_index(es, 4)].1).unwrap()
            &&& crate::params::key_index(es, 5) < 0 ==> r.preview_cn2 == v.preview_cn2
            &&& crate::params::distinct_keys(es) && crate::params::key_index(es, 5) >= 0 ==> r.preview_cn2 == spec_option::<ImageReference>(v.preview_cn2, es[crate::params::key_index(es, 5)].1).unwrap()
        },
    decreases es.len(),
{
    if es.len() > 0 {
        crate::transform::lemma_fold_last::<Background>(v, es);
        law_background_fields(v, es.drop_last());
        let d = es.drop_last();
        assert(crate::params::distinct_keys(es) ==> crate::params::distinct_keys(d));
        assert(es[es.len() - 1] == es.last());
        assert forall|k: u8| es.last().0 != k implies crate::params::key_index(es, k) == crate::params::key_index(d, k) && (crate::params::key_index(d, k) >= 0
            ==> es[crate::params::key_index(d, k)] == d[crate::params::key_index(d, k)]) by {
            crate::params::lemma_key_index_range(d, k);
        }
        assert forall|k: u8| es.last().0 == k && crate::params::distinct_keys(es) implies crate::params::key_index(d, k) < 0 by {
            crate::params::lemma_key_index_range(d, k);
            if crate::params::key_index(d, k) >= 0 {
                assert(es[crate::params::key_index(d, k)].0 == k);
            }
        }
    }
}

/// The parameters of Time.
#[derive(Debug, PartialEq, Default)]
pub struct Time {
    pub hours: Option<TimeNumbers>,
    pub minutes: Option<TimeNumbers>,
    pub seconds: Option<TimeNumbers>,
    pub delimiter_image: Option<ImageReference>,
    pub time_delimiter_image: Option<ImageReference>,
    pub sunset_time_number: Option<NumberInRect>,
    pub sunset_time_delimiter_image_index: Option<ImgId>,
    pub sunrise_time_number: Option<NumberInRect>,
    pub sunrise_time_delimiter_image_index: Option<ImgId>,
    pub drawing_order: Option<bool>,
    pub sunset_time_no_data_image: Option<ImageReference>,
    pub sunrise_time_no_data_image: Option<ImageReference>,
}

impl View for Time {
    type V = Time;

    open spec fn view(&self) -> Time {
        *self
    }
}

impl Transform for Time {
    open spec fn spec_blank() -> Time {
        Time {
            hours: None,
            minutes: None,
            seconds: None,
            delimiter_image: None,
            time_delimiter_image: None,
            sunset_time_number: None,
            sunset_time_delimiter_image_index: None,
            sunrise_time_number: None,
            sunrise_time_delimiter_image_index: None,
            drawing_order: None,
            sunset_time_no_data_image: None,
            sunrise_time_no_data_image: None,
        }
    }

    open spec fn spec_apply(v: Time, key: u8, vals: Seq<PValue>) -> Option<Time> {
        if key == 1 {
            match spec_option::<TimeNumbers>(v.hours, vals) {
                Some(x) => Some(Time {
                    hours: x,
                    minutes: v.minutes,
                    seconds: v.seconds,
                    delimiter_image: v.delimiter_image,
                    time_delimiter_image: v.time_delimiter_image,
                    sunset_time_number: v.sunset_time_number,
                    sunset_time_delimiter_image_index: v.sunset_time_delimiter_image_index,
                    sunrise_time_number: v.sunrise_time_number,
                    sunrise_time_delimiter_image_index: v.sunrise_time_delimiter_image_index,
                    drawing_order: v.drawing_order,
                    sunset_time_no_data_image: v.sunset_time_no_data_image,
                    sunrise_time_no_data_image: v.sunrise_time_no_data_image,
                }),
                None => None,
            }
        } else if key == 2 {
            match spec_option::<TimeNumbers>(v.minutes, vals) {
                Some(x) => Some(Time {
                    hours: v.hours,
                    minutes: x,
                    seconds: v.seconds,
                    delimiter_image: v.delimiter_image,
                    time_delimiter_image: v.time_delimiter_image,
                    sunset_time_number: v.sunset_time_number,
                    sunset_time_delimiter_image_index: v.sunset_time_delimiter_image_index,
                    sunrise_time_number: v.sunrise_time_number,
                    sunrise_time_delimiter_image_index: v.sunrise_time_delimiter_image_index,
                    drawing_order: v.drawing_order,
                    sunset_time_no_data_image: v.sunset_time_no_data_image,
                    sunrise_time_no_data_image: v.sunrise_time_no_data_image,
                }),
                None => None,
            }
        } else if key == 3 {
            match spec_option::<TimeNumbers>(v.seconds, vals) {
                Some(x) => Some(Time {
                    hours: v.hours,
                    minutes: v.minutes,
                    seconds: x,
                    delimiter_image: v.delimiter_image,
                    time_delimiter_image: v.time_delimiter_image,
                    sunset_time_number: v.sunset_time_number,
                    sunset_time_delimiter_image_index: v.sunset_time_delimiter_image_index,
                    sunrise_time_number: v.sunrise_time_number,
                    sunrise_time_delimiter_image_index: v.sunrise_time_delimiter_image_index,
                    drawing_order: v.drawing_order,
                    sunset_time_no_data_image: v.sunset_time_no_data_image,
                    sunrise_time_no_data_image: v.sunrise_time_no_data_image,
                }),
                None => None,
            }
        } else if key == 5 {
            match spec_option::<ImageReference>(v.delimiter_image, vals) {
                Some(x) => Some(Time {
                    hours: v.hours,
                    minutes: v.minutes,
                    seconds: v.seconds,
                    delimiter_image: x,
                    time_delimiter_image: v.time_delimiter_image,
                    sunset_time_number: v.sunset_time_number,
                    sunset_time_delimiter_image_index: v.sunset_time_delimiter_image_index,
                    sunrise_time_number: v.sunrise_time_number,
                    sunrise_time_delimiter_image_index: v.sunrise_time_delimiter_image_index,
                    drawing_order: v.drawing_order,
                    sunset_time_no_data_image: v.sunset_time_no_data_image,
                    sunrise_time_no_data_image: v.sunrise_time_no_data_image,
                }),
                None => None,
            }
        } else if key == 6 {
            match spec_option::<ImageReference>(v.time_delimiter_image, vals) {
                Some(x) => Some(Time {
                    hours: v.hours,
                    minutes: v.minutes,
                    seconds: v.seconds,
                    delimiter_image: v.delimiter_image,
                    time_delimiter_image: x,
                    sunset_time_number: v.sunset_time_number,
                    sunset_time_delimiter_image_index: v.sunset_time_delimiter_image_index,
                    sunrise_time_number: v.sunrise_time_number,
                    sunrise_time_delimiter_image_index: v.sunrise_time_delimiter_image_index,
                    drawing_order: v.drawing_order,
                    sunset_time_no_data_image: v.sunset_time_no_data_image,
                    sunrise_time_no_data_image: v.sunrise_time_no_data_image,
                }),
                None => None,
            }
        } else if key == 7 {
            match spec_option::<NumberInRect>(v.sunset_time_number, vals) {
                Some(x) => Some(Time {
                    hours: v.hours,
                    minutes: v.minutes,
                    seconds: v.seconds,
                    delimiter_image: v.delimiter_image,
                    time_delimiter_image: v.time_delimiter_image,
                    sunset_time_number: x,
                    sunset_time_delimiter_image_index: v.sunset_time_delimiter_image_index,
                    sunrise_time_number: v.sunrise_time_number,
                    sunrise_time_delimiter_image_index: v.sunrise_time_delimiter_image_index,
                    drawing_order: v.drawing_order,
                    sunset_time_no_data_image: v.sunset_time_no_data_image,
                    sunrise_time_no_data_image: v.sunrise_time_no_data_image,
                }),
                None => None,
            }
        } else if key == 8 {
            match spec_img_id_field(vals) {
                Some(x) => Some(Time {
                    hours: v.hours,
                    minutes: v.minutes,
                    seconds: v.seconds,
                    delimiter_image: v.delimiter_image,
                    time_delimiter_image: v.time_delimiter_image,
                    sunset_time_number: v.sunset_time_number,
                    sunset_time_delimiter_image_index: x,
                    sunrise_time_number: v.sunrise_time_number,
                    sunrise_time_delimiter_image_index: v.sunrise_time_delimiter_image_index,
                    drawing_order: v.drawing_order,
                    sunset_time_no_data_image: v.sunset_time_no_data_image,
                    sunrise_time_no_data_image: v.sunrise_time_no_data_image,
                }),
                None => None,
            }
        } else if key == 9 {
            match spec_option::<NumberInRect>(v.sunrise_time_number, vals) {
                Some(x) => Some(Time {
                    hours: v.hours,
                    minutes: v.minutes,
                    seconds: v.seconds,
                    delimiter_image: v.delimiter_image,
                    time_delimiter_image: v.time_delimiter_image,
                    sunset_time_number: v.sunset_time_number,
                    sunset_time_delimiter_image_index: v.sunset_time_delimiter_image_index,
                    sunrise_time_number: x,
                    sunrise_time_delimiter_image_index: v.sunrise_time_delimiter_image_index,
                    drawing_order: v.drawing_order,
                    sunset_time_no_data_image: v.sunset_time_no_data_image,
                    sunrise_time_no_data_image: v.sunrise_time_no_data_image,
                }),
                None => None,
            }
        } else if key == 10 {
            match spec_img_id_field(vals) {
                Some(x) => Some(Time {
                    hours: v.hours,
                    minutes: v.minutes,
                    seconds: v.seconds,
                    delimiter_image: v.delimiter_image,
                    time_delimiter_image: v.time_delimiter_image,
                    sunset_time_number: v.sunset_time_number,
                    sunset_time_delimiter_image_index: v.sunset_time_delimiter_image_index,
                    sunrise_time_number: v.sunrise_time_number,
                    sunrise_time_delimiter_image_index: x,
                    drawing_order: v.drawing_order,
                    sunset_time_no_data_image: v.sunset_time_no_data_image,
                    sunrise_time_no_data_image: v.sunrise_time_no_data_image,
                }),
                None => None,
            }
        } else if key == 11 {
            match spec_bool_field(vals) {
                Some(x) => Some(Time {
                    hours: v.hours,
                    minutes: v.minutes,
                    seconds: v.seconds,
                    delimiter_image: v.delimiter_image,
                    time_delimiter_image: v.time_delimiter_image,
                    sunset_time_number: v.sunset_time_number,
                    sunset_time_delimiter_image_index: v.sunset_time_delimiter_image_index,
                    sunrise_time_number: v.sunrise_time_number,
                    sunrise_time_delimiter_image_index: v.sunrise_time_delimiter_image_index,
                    drawing_order: x,
                    sunset_time_no_data_image: v.sunset_time_no_data_image,
                    sunrise_time_no_data_image: v.sunrise_time_no_data_image,
                }),
                None => None,
            }
        } else if key == 12 {
            match spec_option::<ImageReference>(v.sunset_time_no_data_image, vals) {
                Some(x) => Some(Time {
                    hours: v.hours,
                    minutes: v.minutes,
                    seconds: v.seconds,
                    delimiter_image: v.delimiter_image,
                    time_delimiter_image: v.time_delimiter_image,
                    sunset_time_number: v.sunset_time_number,
                    sunset_time_delimiter_image_index: v.sunset_time_delimiter_image_index,
                    sunrise_time_number: v.sunrise_time_number,
                    sunrise_time_delimiter_image_index: v.sunrise_time_delimiter_image_index,
                    drawing_order: v.drawing_order,
                    sunset_time_no_data_image: x,
                    sunrise_time_no_data_image: v.sunrise_time_no_data_image,
                }),
                None => None,
            }
        } else if key == 13 {
            match spec_option::<ImageReference>(v.sunrise_time_no_data_image, vals) {
                Some(x) => Some(Time {
                    hours: v.hours,
                    minutes: v.minutes,
                    seconds: v.seconds,
                    delimiter_image: v.delimiter_image,
                    time_delimiter_image: v.time_delimiter_image,
                    sunset_time_number: v.sunset_time_number,
                    sunset_time_delimiter_image_index: v.sunset_time_delimiter_image_index,
                    sunrise_time_number: v.sunrise_time_number,
                    sunrise_time_delimiter_image_index: v.sunrise_time_delimiter_image_index,
                    drawing_order: v.drawing_order,
                    sunset_time_no_data_image: v.sunset_time_no_data_image,
                    sunrise_time_no_data_image: x,
                }),
                None => None,
            }
        } else {
            Some(v)
        }
    }

    fn blank() -> (r: Self) {
        let r = Time {
            hours: None,
            minutes: None,
            seconds: None,
            delimiter_image: None,
            time_delimiter_image: None,
            sunset_time_number: None,
            sunset_time_delimiter_image_index: None,
            sunrise_time_number: None,
            sunrise_time_delimiter_image_index: None,
            drawing_order: None,
            sunset_time_no_data_image: None,
            sunrise_time_no_data_image: None,
        };
        r
    }

    fn apply(&mut self, key: u8, vals: &Vec<Param>) -> (r: Result<(), ParseError>) {
        if key == 1 {
            transform_option::<TimeNumbers>(&mut self.hours, vals)
        } else if key == 2 {
            transform_option::<TimeNumbers>(&mut self.minutes, vals)
        } else if key == 3 {
            transform_option::<TimeNumbers>(&mut self.seconds, vals)
        } else if key == 5 {
            transform_option::<ImageReference>(&mut self.delimiter_image, vals)
        } else if key == 6 {
            transform_option::<ImageReference>(&mut self.time_delimiter_image, vals)
        } else if key == 7 {
            transform_option::<NumberInRect>(&mut self.sunset_time_number, vals)
        } else if key == 8 {
            transform_img_id(&mut self.sunset_time_delimiter_image_index, vals)
        } else if key == 9 {
            transform_option::<NumberInRect>(&mut self.sunrise_time_number, vals)
        } else if key == 10 {
            transform_img_id(&mut self.sunrise_time_delimiter_image_index, vals)
        } else if key == 11 {
            transform_bool(&mut self.drawing_order, vals)
        } else if key == 12 {
            transform_option::<ImageReference>(&mut self.sunset_time_no_data_image, vals)
        } else if key == 13 {
            transform_option::<ImageReference>(&mut self.sunrise_time_no_data_image, vals)
        } else {
            Ok(())
        }
    }
}

/// Filling a `Time` with entries: a field whose key occurs in no entry
/// keeps its value; one whose key occurs holds the value read from the last
/// entry under it, or, for an element field, read into its value from
/// before where no key occurs twice.
pub proof fn law_time_fields(v: Time, es: Seq<(u8, Seq<PValue>)>)
    ensures
        crate::transform::spec_fold::<Time>(v, es) matches Some(r) ==> {
            &&& crate::params::key_index(es, 1) < 0 ==> r.hours == v.hours
            &&& crate::params::distinct_keys(es) && crate::params::key_index(es, 1) >= 0 ==> r.hours == spec_option::<TimeNumbers>(v.hours, es[crate::params::key_index(es, 1)].1).unwrap()
            &&& crate::params::key_index(es, 2) < 0 ==> r.minutes == v.minutes
            &&& crate::params::distinct_keys(es) && crate::params::key_index(es, 2) >= 0 ==> r.minutes == spec_option::<TimeNumbers>(v.minutes, es[crate::params::key_index(es, 2)].1).unwrap()
            &&& crate::params::key_index(es, 3) < 0 ==> r.seconds == v.seconds
            &&& crate::params::distinct_keys(es) && crate::params::key_index(es, 3) >= 0 ==> r.seconds == spec_option::<TimeNumbers>(v.seconds, es[crate::params::key_index(es, 3)].1).unwrap()
            &&& crate::params::key_index(es, 5) < 0 ==> r.delimiter_image == v.delimiter_image
            &&& crate::params::distinct_keys(es) && crate::params::key_index(es, 5) >= 0 ==> r.delimiter_image == spec_option::<ImageReference>(v.delimiter_image, es[crate::params::key_index(es, 5)].1).unwrap()
            &&& crate::params::key_index(es, 6) < 0 ==> r.time_delimiter_image == v.time_delimiter_image
            &&& crate::params::distinct_keys(es) && crate::params::key_index(es, 6) >= 0 ==> r.time_delimiter_image == spec_option::<ImageReference>(v.time_delimiter_image, es[crate::params::key_index(es, 6)].1).unwrap()
            &&& crate::params::key_index(es, 7) < 0 ==> r.sunset_time_number == v.sunset_time_number
            &&& crate::params::distinct_keys(es) && crate::params::key_index(es, 7) >= 0 ==> r.sunset_time_number == spec_option::<NumberInRect>(v.sunset_time_number, es[crate::params::key_index(es, 7)].1).unwrap()
            &&& crate::params::key_index(es, 8) < 0 ==> r.sunset_time_delimiter_image_index == v.sunset_time_delimiter_image_index
            &&& crate::params::key_index(es, 8) >= 0 ==> r.sunset_time_delimiter_image_index == spec_img_id_field(es[crate::params::key_index(es, 8)].1).unwrap()
            &&& crate::params::key_index(es, 9) < 0 ==> r.sunrise_time_number == v.sunrise_time_number
            &&& crate::params::distinct_keys(es) && crate::params::key_index(es, 9) >= 0 ==> r.sunrise_time_number == spec_option::<NumberInRect>(v.sunrise_time_number, es[crate::params::key_index(es, 9)].1).unwrap()
            &&& crate::params::key_index(es, 10) < 0 ==> r.sunrise_time_delimiter_image_index == v.sunrise_time_delimiter_image_index
            &&& crate::params::key_index(es, 10) >= 0 ==> r.sunrise_time_delimiter_image_index == spec_img_id_field(es[crate::params::key_index(es, 10)].1).unwrap()
            &&& crate::params::key_index(es, 11) < 0 ==> r.drawing_order == v.drawing_order
            &&& crate::params::key_index(es, 11) >= 0 ==> r.drawing_order == spec_bool_field(es[crate::params::key_index(es, 11)].1).unwrap()
            &&& crate::params::key_index(es, 12) < 0 ==> r.sunset_time_no_data_image == v.sunset_time_no_data_image
            &&& crate::params::distinct_keys(es) && crate::params::key_index(es, 12) >= 0 ==> r.sunset_time_no_data_image == spec_option::<ImageReference>(v.sunset_time_no_data_image, es[crate::params::key_index(es, 12)].1).unwrap()
            &&& crate::params::key_index(es, 13) < 0 ==> r.sunrise_time_no_data_image == v.sunrise_time_no_data_image
            &&& crate::params::distinct_keys(es) && crate::params::key_index(es, 13) >= 0 ==> r.sunrise_time_no_data_image == spec_option::<ImageReference>(v.sunrise_time_no_data_image, es[crate::params::key_index(es, 13)].1).unwrap()
        },
    decreases es.len(),
{
    if es.len() > 0 {
        crate::transform::lemma_fold_last::<Time>(v, es);
        law_time_fields(v, es.drop_last());
        let d = es.drop_last();
        assert(crate::params::distinct_keys(es) ==> crate::params::distinct_keys(d));
        assert(es[es.len() - 1] == es.last());
        assert forall|k: u8| es.last().0 != k implies crate::params::key_index(es, k) == crate::params::key_index(d, k) && (crate::params::key_index(d, k) >= 0
            ==> es[crate::params::key_index(d, k)] == d[crate::params::key_index(d, k)]) by {
            crate::params::lemma_key_index_range(d, k);
        }
        assert forall|k: u8| es.last().0 == k && crate::params::distinct_keys(es) implies crate::params::key_index(d, k) < 0 by {
            crate::params::lemma_key_index_range(d, k);
            if crate::params::key_index(d, k) >= 0 {
                assert(es[crate::params::key_index(d, k)].0 == k);
            }
        }
    }
}

/// The parameters of TimeNumbers.
#[derive(Debug, PartialEq, Default)]
pub struct TimeNumbers {
    pub tens: Option<ImageRange>,
    pub ones: Option<ImageRange>,
}

impl View for TimeNumbers {
    type V = TimeNumbers;

    open spec fn view(&self) -> TimeNumbers {
        *self
    }
}

impl Transform for TimeNumbers {
    open spec fn spec_blank() -> TimeNumbers {
        TimeNumbers {
            tens: None,
            ones: None,
        }
    }

    open spec fn spec_apply(v: TimeNumbers, key: u8, vals: Seq<PValue>) -> Option<TimeNumbers> {
        if key == 1 {
            match spec_option::<ImageRange>(v.tens, vals) {
                Some(x) => Some(TimeNumbers {
                    tens: x,
                    ones: v.ones,
                }),
                None => None,
            }
        } else if key == 2 {
            match spec_option::<ImageRange>(v.ones, vals) {
                Some(x) => Some(TimeNumbers {
                    tens: v.tens,
                    ones: x,
                }),
                None => None,
            }
        } else {
            Some(v)
        }
    }

    fn blank() -> (r: Self) {
        let r = TimeNumbers {
            tens: None,
            ones: None,
        };
        r
    }

    fn apply(&mut self, key: u8, vals: &Vec<Param>) -> (r: Result<(), ParseError>) {
        if key == 1 {
            transform_option::<ImageRange>(&mut self.tens, vals)
        } else if key == 2 {
            transform_option::<ImageRange>(&mut self.ones, vals)
        } else {
            Ok(())
        }
    }
}

/// Filling a `TimeNumbers` with entries: a field whose key occurs in no entry
/// keeps its value; one whose key occurs holds the value read from the last
/// entry under it, or, for an element field, read into its value from
/// before where no key occurs twice.
pub proof fn law_time_numbers_fields(v: TimeNumbers, es: Seq<(u8, Seq<PValue>)>)
    ensures
        crate::transform::spec_fold::<TimeNumbers>(v, es) matches Some(r) ==> {
            &&& crate::params::key_index(es, 1) < 0 ==> r.tens == v.tens
            &&& crate::params::distinct_keys(es) && crate::params::key_index(es, 1) >= 0 ==> r.tens == spec_option::<ImageRange>(v.tens, es[crate::params::key_index(es, 1)].1).unwrap()
            &&& crate::params::key_index(es, 2) < 0 ==> r.ones == v.ones
            &&& crate::params::distinct_keys(es) && crate::params::key_index(es, 2) >= 0 ==> r.ones == spec_option::<ImageRange>(v.ones, es[crate::params::key_index(es, 2)].1).unwrap()
        },
    decreases es.len(),
{
    if es.len() > 0 {
        crate::transform::lemma_fold_last::<TimeNumbers>(v, es);
        law_time_numbers_fields(v, es.drop_last());
        let d = es.drop_last();
        assert(crate::params::distinct_keys(es) ==> crate::params::distinct_keys(d));
        assert(es[es.len() - 1] == es.last());
        assert forall|k: u8| es.last().0 != k implies crate::params::key_index(es, k) == crate::params::key_index(d, k) && (crate::params::key_index(d, k) >= 0
            ==> es[crate::params::key_index(d, k)] == d[crate::params::key_index(d, k)]) by {
            crate::params::lemma_key_index_range(d, k);
        }
        assert forall|k: u8| es.last().0 == k && crate::params::distinct_keys(es) implies crate::params::key_index(d, k) < 0 by {
            crate::params::lemma_key_index_range(d, k);
            if crate::params::key_index(d, k) >= 0 {
                assert(es[crate::params::key_index(d, k)].0 == k);
            }
        }
    }
}

/// The parameters of Activity.
#[derive(Debug, PartialEq, Default)]
pub struct Activity {
    pub steps: Option<Steps>,
    pub calories: Option<Calories>,
    pub pulse: Option<Pulse>,
    pub distance: Option<Distance>,
    pub pai: Option<PAI>,
    pub unknown_v7: i32,
}

impl View for Activity {
    type V = Activity;

    open spec fn view(&self) -> Activity {
        *self
    }
}

impl Transform for Activity {
    open spec fn spec_blank() -> Activity {
        Activity {
            steps: None,
            calories: None,
            pulse: None,
            distance: None,
            pai: None,
            unknown_v7: 0i32,
        }
    }

    open spec fn spec_apply(v: Activity, key: u8, vals: Seq<PValue>) -> Option<Activity> {
        if key == 1 {
            match spec_option::<Steps>(v.steps, vals) {
                Some(x) => Some(Activity {
                    steps: x,
                    calories: v.calories,
                    pulse: v.pulse,
                    distance: v.distance,
                    pai: v.pai,
                    unknown_v7: v.unknown_v7,
                }),
                None => None,
            }
        } else if key == 3 {
            match spec_option::<Calories>(v.calories, vals) {
                Some(x) => Some(Activity {
                    steps: v.steps,
                    calories: x,
                    pulse: v.pulse,
                    distance: v.distance,
                    pai: v.pai,
                    unknown_v7: v.unknown_v7,
                }),
                None => None,
            }
        } else if key == 4 {
            match spec_option::<Pulse>(v.pulse, vals) {
                Some(x) => Some(Activity {
                    steps: v.steps,
                    calories: v.calories,
                    pulse: x,
                    distance: v.distance,
                    pai: v.pai,
                    unknown_v7: v.unknown_v7,
                }),
                None => None,
            }
        } else if key == 5 {
            match spec_option::<Distance>(v.distance, vals) {
                Some(x) => Some(Activity {
                    steps: v.steps,
                    calories: v.calories,
                    pulse: v.pulse,
                    distance: x,
                    pai: v.pai,
                    unknown_v7: v.unknown_v7,
                }),
                None => None,
            }
        } else if key == 6 {
            match spec_option::<PAI>(v.pai, vals) {
                Some(x) => Some(Activity {
                    steps: v.steps,
                    calories: v.calories,
                    pulse: v.pulse,
                    distance: v.distance,
                    pai: x,
                    unknown_v7: v.unknown_v7,
                }),
                None => None,
            }
        } else if key == 7 {
            match spec_i32_field(vals) {
                Some(x) => Some(Activity {
                    steps: v.steps,
                    calories: v.calories,
                    pulse: v.pulse,
                    distance: v.distance,
                    pai: v.pai,
                    unknown_v7: x,
                }),
                None => None,
            }
        } else {
            Some(v)
        }
    }

    fn blank() -> (r: Self) {
        let r = Activity {
            steps: None,
            calories: None,
            pulse: None,
            distance: None,
            pai: None,
            unknown_v7: 0,
        };
        r
    }

    fn apply(&mut self, key: u8, vals: &Vec<Param>) -> (r: Result<(), ParseError>) {
        if key == 1 {
            transform_option::<Steps>(&mut self.steps, vals)
        } else if key == 3 {
            transform_option::<Calories>(&mut self.calories, vals)
        } else if key == 4 {
            transform_option::<Pulse>(&mut self.pulse, vals)
        } else if key == 5 {
            transform_option::<Distance>(&mut self.distance, vals)
        } else if key == 6 {
            transform_option::<PAI>(&mut self.pai, vals)
        } else if key == 7 {
            transform_i32(&mut self.unknown_v7, vals)
        } else {
            Ok(())
        }
    }
}

/// Filling a `Activity` with entries: a field whose key occurs in no entry
/// keeps its value; one whose key occurs holds the value read from the last
/// entry under it, or, for an element field, read into its value from
/// before where no key occurs twice.
pub proof fn law_activity_fields(v: Activity, es: Seq<(u8, Seq<PValue>)>)
    ensures
        crate::transform::spec_fold::<Activity>(v, es) matches Some(r) ==> {
            &&& crate::params::key_index(es, 1) < 0 ==> r.steps == v.steps
            &&& crate::params::distinct_keys(es) && crate::params::key_index(es, 1) >= 0 ==> r.steps == spec_option::<Steps>(v.steps, es[crate::params::key_index(es, 1)].1).unwrap()
            &&& crate::params::key_index(es, 3) < 0 ==> r.calories == v.calories
            &&& crate::params::distinct_keys(es) && crate::params::key_index(es, 3) >= 0 ==> r.calories == spec_option::<Calories>(v.calories, es[crate::params::key_index(es, 3)].1).unwrap()
            &&& crate::params::key_index(es, 4) < 0 ==> r.pulse == v.pulse
            &&& crate::params::distinct_keys(es) && crate::params::key_index(es, 4) >= 0 ==> r.pulse == spec_option::<Pulse>(v.pulse, es[crate::params::key_index(es, 4)].1).unwrap()
            &&& crate::params::key_index(es, 5) < 0 ==> r.distance == v.distance
            &&& crate::params::distinct_keys(es) && crate::params::key_index(es, 5) >= 0 ==> r.distance == spec_option::<Distance>(v.distance, es[crate::params::key_index(es, 5)].1).unwrap()
            &&& crate::params::key_index(es, 6) < 0 ==> r.pai == v.pai
            &&& crate::params::distinct_keys(es) && crate::params::key_index(es, 6) >= 0 ==> r.pai == spec_option::<PAI>(v.pai, es[crate::params::key_index(es, 6)].1).unwrap()
            &&& crate::params::key_index(es, 7) < 0 ==> r.unknown_v7 == v.unknown_v7
            &&& crate::params::key_index(es, 7) >= 0 ==> r.unknown_v7 == spec_i32_field(es[crate::params::key_index(es, 7)].1).unwrap()
        },
    decreases es.len(),
{
    if es.len() > 0 {
        crate::transform::lemma_fold_last::<Activity>(v, es);
        law_activity_fields(v, es.drop_last());
        let d = es.drop_last();
        assert(crate::params::distinct_keys(es) ==> crate::params::distinct_keys(d));
        assert(es[es.len() - 1] == es.last());
        assert forall|k: u8| es.last().0 != k implies crate::params::key_index(es, k) == crate::params::key_index(d, k) && (crate::params::key_index(d, k) >= 0
            ==> es[crate::params::key_index(d, k)] == d[crate::params::key_index(d, k)]) by {
            crate::params::lemma_key_index_range(d, k);
        }
        assert forall|k: u8| es.last().0 == k && crate::params::distinct_keys(es) implies crate::params::key_index(d, k) < 0 by {
            crate::params::lemma_key_index_range(d, k);
            if crate::params::key_index(d, k) >= 0 {
                assert(es[crate::params::key_index(d, k)].0 == k);
            }
        }
    }
}

/// The parameters of Steps.
#[derive(Debug, PartialEq, Default)]
pub struct Steps {
    pub number: Option<NumberInRect>,
    pub prefix_image_index: Option<ImgId>,
    pub suffix_image_index: Option<ImgId>,
}

impl View for Steps {
    type V = Steps;

    open spec fn view(&self) -> Steps {
        *self
    }
}

impl Transform for Steps {
    open spec fn spec_blank() -> Steps {
        Steps {
            number: None,
            prefix_image_index: None,
            suffix_image_index: None,
        }
    }

    open spec fn spec_apply(v: Steps, key: u8, vals: Seq<PValue>) -> Option<Steps> {
        if key == 1 {
            match spec_option::<NumberInRect>(v.number, vals) {
                Some(x) => Some(Steps {
                    number: x,
                    prefix_image_index: v.prefix_image_index,
                    suffix_image_index: v.suffix_image_index,
                }),
                None => None,
            }
        } else if key == 2 {
            match spec_img_id_field(vals) {
                Some(x) => Some(Steps {
                    number: v.number,
                    prefix_image_index: x,
                    suffix_image_index: v.suffix_image_index,
                }),
                None => None,
            }
        } else if key == 3 {
            match spec_img_id_field(vals) {
                Some(x) => Some(Steps {
                    number: v.number,
                    prefix_image_index: v.prefix_image_index,
                    suffix_image_index: x,
                }),
                None => None,
            }
        } else {
            Some(v)
        }
    }

    fn blank() -> (r: Self) {
        let r = Steps {
            number: None,
            prefix_image_index: None,
            suffix_image_index: None,
        };
        r
    }

    fn apply(&mut self, key: u8, vals: &Vec<Param>) -> (r: Result<(), ParseError>) {
        if key == 1 {
            transform_option::<NumberInRect>(&mut self.number, vals)
        } else if key == 2 {
            transform_img_id(&mut self.prefix_image_index, vals)
        } else if key == 3 {
            transform_img_id(&mut self.suffix_image_index, vals)
        } else {
            Ok(())
        }
    }
}

/// Filling a `Steps` with entries: a field whose key occurs in no entry
/// keeps its value; one whose key occurs holds the value read from the last
/// entry under it, or, for an element field, read into its value from
/// before where no key occurs twice.
pub proof fn law_steps_fields(v: Steps, es: Seq<(u8, Seq<PValue>)>)
    ensures
        crate::transform::spec_fold::<Steps>(v, es) matches Some(r) ==> {
            &&& crate::params::key_index(es, 1) < 0 ==> r.number == v.number
            &&& crate::params::distinct_keys(es) && crate::params::key_index(es, 1) >= 0 ==> r.number == spec_option::<NumberInRect>(v.number, es[crate::params::key_index(es, 1)].1).unwrap()
            &&& crate::params::key_index(es, 2) < 0 ==> r.prefix_image_index == v.prefix_image_index
            &&& crate::params::key_index(es, 2) >= 0 ==> r.prefix_image_index == spec_img_id_field(es[crate::params::key_index(es, 2)].1).unwrap()
            &&& crate::params::key_index(es, 3) < 0 ==> r.suffix_image_index == v.suffix_image_index
            &&& crate::params::key_index(es, 3) >= 0 ==> r.suffix_image_index == spec_img_id_field(es[crate::params::key_index(es, 3)].1).unwrap()
        },
    decreases es.len(),
{
    if es.len() > 0 {
        crate::transform::lemma_fold_last::<Steps>(v, es);
        law_steps_fields(v, es.drop_last());
        let d = es.drop_last();
        assert(crate::params::distinct_keys(es) ==> crate::params::distinct_keys(d));
        assert(es[es.len() - 1] == es.last());
        assert forall|k: u8| es.last().0 != k implies crate::params::key_index(es, k) == crate::params::key_index(d, k) && (crate::params::key_index(d, k) >= 0
            ==> es[crate::params::key_index(d, k)] == d[crate::params::key_index(d, k)]) by {
            crate::params::lemma_key_index_range(d, k);
        }
        assert forall|k: u8| es.last().0 == k && crate::params::distinct_keys(es) implies crate::params::key_index(d, k) < 0 by {
            crate::params::lemma_key_index_range(d, k);
            if crate::params::key_index(d, k) >= 0 {
                assert(es[crate::params::key_index(d, k)].0 == k);
            }
        }
    }
}

/// The parameters of Calories.
#[derive(Debug, PartialEq, Default)]
pub struct Calories {
    pub number: Option<NumberInRect>,
    pub suffix_image_index: Option<ImgId>,
}

impl View for Calories {
    type V = Calories;

    open spec fn view(&self) -> Calories {
        *self
    }
}

impl Transform for Calories {
    open spec fn spec_blank() -> Calories {
        Calories {
            number: None,
            suffix_image_index: None,
        }
    }

    open spec fn spec_apply(v: Calories, key: u8, vals: Seq<PValue>) -> Option<Calories> {
        if key == 1 {
            match spec_option::<NumberInRect>(v.number, vals) {
                Some(x) => Some(Calories {
                    number: x,
                    suffix_image_index: v.suffix_image_index,
                }),
                None => None,
            }
        } else if key == 2 {
            match spec_img_id_field(vals) {
                Some(x) => Some(Calories {
                    number: v.number,
                    suffix_image_index: x,
                }),
                None => None,
            }
        } else {
            Some(v)
        }
    }

    fn blank() -> (r: Self) {
        let r = Calories {
            number: None,
            suffix_image_index: None,
        };
        r
    }

    fn apply(&mut self, key: u8, vals: &Vec<Param>) -> (r: Result<(), ParseError>) {
        if key == 1 {
            transform_option::<NumberInRect>(&mut self.number, vals)
        } else if key == 2 {
            transform_img_id(&mut self.suffix_image_index, vals)
        } else {
            Ok(())
        }
    }
}

/// Filling a `Calories` with entries: a field whose key occurs in no entry
/// keeps its value; one whose key occurs holds the value read from the last
/// entry under it, or, for an element field, read into its value from
/// before where no key occurs twice.
pub proof fn law_calories_fields(v: Calories, es: Seq<(u8, Seq<PValue>)>)
    ensures
        crate::transform::spec_fold::<Calories>(v, es) matches Some(r) ==> {
            &&& crate::params::key_index(es, 1) < 0 ==> r.number == v.number
            &&& crate::params::distinct_keys(es) && crate::params::key_index(es, 1) >= 0 ==> r.number == spec_option::<NumberInRect>(v.number, es[crate::params::key_index(es, 1)].1).unwrap()
            &&& crate::params::key_index(es, 2) < 0 ==> r.suffix_image_index == v.suffix_image_index
            &&& crate::params::key_index(es, 2) >= 0 ==> r.suffix_image_index == spec_img_id_field(es[crate::params::key_index(es, 2)].1).unwrap()
        },
    decreases es.len(),
{
    if es.len() > 0 {
        crate::transform::lemma_fold_last::<Calories>(v, es);
        law_calories_fields(v, es.drop_last());
        let d = es.drop_last();
        assert(crate::params::distinct_keys(es) ==> crate::params::distinct_keys(d));
        assert(es[es.len() - 1] == es.last());
        assert forall|k: u8| es.last().0 != k implies crate::params::key_index(es, k) == crate::params::key_index(d, k) && (crate::params::key_index(d, k) >= 0
            ==> es[crate::params::key_index(d, k)] == d[crate::params::key_index(d, k)]) by {
            crate::params::lemma_key_index_range(d, k);
        }
        assert forall|k: u8| es.last().0 == k && crate::params::distinct_keys(es) implies crate::params::key_index(d, k) < 0 by {
            crate::params::lemma_key_index_range(d, k);
            if crate::params::key_index(d, k) >= 0 {
                assert(es[crate::params::key_index(d, k)].0 == k);
            }
        }
    }
}

/// The parameters of Pulse.
#[derive(Debug, PartialEq, Default)]
pub struct Pulse {
    pub number: Option<NumberInRect>,
    pub prefix_image_index: Option<ImgId>,
    pub no_data_image_index: Option<ImgId>,
    pub suffix_image_index: Option<ImgId>,
}

impl View for Pulse {
    type V = Pulse;

    open spec fn view(&self) -> Pulse {
        *self
    }
}

impl Transform for Pulse {
    open spec fn spec_blank() -> Pulse {
        Pulse {
            number: None,
            prefix_image_index: None,
            no_data_image_index: None,
            suffix_image_index: None,
        }
    }

    open spec fn spec_apply(v: Pulse, key: u8, vals: Seq<PValue>) -> Option<Pulse> {
        if key == 1 {
            match spec_option::<NumberInRect>(v.number, vals) {
                Some(x) => Some(Pulse {
                    number: x,
                    prefix_image_index: v.prefix_image_index,
                    no_data_image_index: v.no_data_image_index,
                    suffix_image_index: v.suffix_image_index,
                }),
                None => None,
            }
        } else if key == 2 {
            match spec_img_id_field(vals) {
                Some(x) => Some(Pulse {
                    number: v.number,
                    prefix_image_index: x,
                    no_data_image_index: v.no_data_image_index,
                    suffix_image_index: v.suffix_image_index,
                }),
                None => None,
            }
        } else if key == 3 {
            match spec_img_id_field(vals) {
                Some(x) => Some(Pulse {
                    number: v.number,
                    prefix_image_index: v.prefix_image_index,
                    no_data_image_index: x,
                    suffix_image_index: v.suffix_image_index,
                }),
                None => None,
            }
        } else if key == 4 {
            match spec_img_id_field(vals) {
                Some(x) => Some(Pulse {
                    number: v.number,
                    prefix_image_index: v.prefix_image_index,
                    no_data_image_index: v.no_data_image_index,
                    suffix_image_index: x,
                }),
                None => None,
            }
        } else {
            Some(v)
        }
    }

    fn blank() -> (r: Self) {
        let r = Pulse {
            number: None,
            prefix_image_index: None,
            no_data_image_index: None,
            suffix_image_index: None,
        };
        r
    }

    fn apply(&mut self, key: u8, vals: &Vec<Param>) -> (r: Result<(), ParseError>) {
        if key == 1 {
            transform_option::<NumberInRect>(&mut self.number, vals)
        } else if key == 2 {
            transform_img_id(&mut self.prefix_image_index, vals)
        } else if key == 3 {
            transform_img_id(&mut self.no_data_image_index, vals)
        } else if key == 4 {
            transform_img_id(&mut self.suffix_image_index, vals)
        } else {
            Ok(())
        }
    }
}

/// Filling a `Pulse` with entries: a field whose key occurs in no entry
/// keeps its value; one whose key occurs holds the value read from the last
/// entry under it, or, for an element field, read into its value from
/// before where no key occurs twice.
pub proof fn law_pulse_fields(v: Pulse, es: Seq<(u8, Seq<PValue>)>)
    ensures
        crate::transform::spec_fold::<Pulse>(v, es) matches Some(r) ==> {
            &&& crate::params::key_index(es, 1) < 0 ==> r.number == v.number
            &&& crate::params::distinct_keys(es) && crate::params::key_index(es, 1) >= 0 ==> r.number == spec_option::<NumberInRect>(v.number, es[crate::params::key_index(es, 1)].1).unwrap()
            &&& crate::params::key_index(es, 2) < 0 ==> r.prefix_image_index == v.prefix_image_index
            &&& crate::params::key_index(es, 2) >= 0 ==> r.prefix_image_index == spec_img_id_field(es[crate::params::key_index(es, 2)].1).unwrap()
            &&& crate::params::key_index(es, 3) < 0 ==> r.no_data_image_index == v.no_data_image_index
            &&& crate::params::key_index(es, 3) >= 0 ==> r.no_data_image_index == spec_img_id_field(es[crate::params::key_index(es, 3)].1).unwrap()
            &&& crate::params::key_index(es, 4) < 0 ==> r.suffix_image_index == v.suffix_image_index
            &&& crate::params::key_index(es, 4) >= 0 ==> r.suffix_image_index == spec_img_id_field(es[crate::params::key_index(es, 4)].1).unwrap()
        },
    decreases es.len(),
{
    if es.len() > 0 {
        crate::transform::lemma_fold_last::<Pulse>(v, es);
        law_pulse_fields(v, es.drop_last());
        let d = es.drop_last();
        assert(crate::params::distinct_keys(es) ==> crate::params::distinct_keys(d));
        assert(es[es.len() - 1] == es.last());
        assert forall|k: u8| es.last().0 != k implies crate::params::key_index(es, k) == crate::params::key_index(d, k) && (crate::params::key_index(d, k) >= 0
            ==> es[crate::params::key_index(d, k)] == d[crate::params::key_index(d, k)]) by {
            crate::params::lemma_key_index_range(d, k);
        }
        assert forall|k: u8| es.last().0 == k && crate::params::distinct_keys(es) implies crate::params::key_index(d, k) < 0 by {
            crate::params::lemma_key_index_range(d, k);
            if crate::params::key_index(d, k) >= 0 {
                assert(es[crate::params::key_index(d, k)].0 == k);
            }
        }
    }
}

/// The parameters of Distance.
#[derive(Debug, PartialEq, Default)]
pub struct Distance {
    pub number: Option<NumberInRect>,
    pub km_suffix_image_index: Option<ImgId>,
    pub decimal_point_image_index: Option<ImgId>,
    pub miles_suffix_image_index: Option<ImgId>,
}

impl View for Distance {
    type V = Distance;

    open spec fn view(&self) -> Distance {
        *self
    }
}

impl Transform for Distance {
    open spec fn spec_blank() -> Distance {
        Distance {
            number: None,
            km_suffix_image_index: None,
            decimal_point_image_index: None,
            miles_suffix_image_index: None,
        }
    }

    open spec fn spec_apply(v: Distance, key: u8, vals: Seq<PValue>) -> Option<Distance> {
        if key == 1 {
            match spec_option::<NumberInRect>(v.number, vals) {
                Some(x) => Some(Distance {
                    number: x,
                    km_suffix_image_index: v.km_suffix_image_index,
                    decimal_point_image_index: v.decimal_point_image_index,
                    miles_suffix_image_index: v.miles_suffix_image_index,
                }),
                None => None,
            }
        } else if key == 2 {
            match spec_img_id_field(vals) {
                Some(x) => Some(Distance {
                    number: v.number,
                    km_suffix_image_index: x,
                    decimal_point_image_index: v.decimal_point_image_index,
                    miles_suffix_image_index: v.miles_suffix_image_index,
                }),
                None => None,
            }
        } else if key == 3 {
            match spec_img_id_field(vals) {
                Some(x) => Some(Distance {
                    number: v.number,
                    km_suffix_image_index: v.km_suffix_image_index,
                    decimal_point_image_index: x,
                    miles_suffix_image_index: v.miles_suffix_image_index,
                }),
                None => None,
            }
        } else if key == 4 {
            match spec_img_id_field(vals) {
                Some(x) => Some(Distance {
                    number: v.number,
                    km_suffix_image_index: v.km_suffix_image_index,
                    decimal_point_image_index: v.decimal_point_image_index,
                    miles_suffix_image_index: x,
                }),
                None => None,
            }
        } else {
            Some(v)
        }
    }

    fn blank() -> (r: Self) {
        let r = Distance {
            number: None,
            km_suffix_image_index: None,
            decimal_point_image_index: None,
            miles_suffix_image_index: None,
        };
        r
    }

    fn apply(&mut self, key: u8, vals: &Vec<Param>) -> (r: Result<(), ParseError>) {
        if key == 1 {
            transform_option::<NumberInRect>(&mut self.number, vals)
        } else if key == 2 {
            transform_img_id(&mut self.km_suffix_image_index, vals)
        } else if key == 3 {
            transform_img_id(&mut self.decimal_point_image_index, vals)
        } else if key == 4 {
            transform_img_id(&mut self.miles_suffix_image_index, vals)
        } else {
            Ok(())
        }
    }
}

/// Filling a `Distance` with entries: a field whose key occurs in no entry
/// keeps its value; one whose key occurs holds the value read from the last
/// entry under it, or, for an element field, read into its value from
/// before where no key occurs twice.
pub proof fn law_distance_fields(v: Distance, es: Seq<(u8, Seq<PValue>)>)
    ensures
        crate::transform::spec_fold::<Distance>(v, es) matches Some(r) ==> {
            &&& crate::params::key_index(es, 1) < 0 ==> r.number == v.number
            &&& crate::params::distinct_keys(es) && crate::params::key_index(es, 1) >= 0 ==> r.number == spec_option::<NumberInRect>(v.number, es[crate::params::key_index(es, 1)].1).unwrap()
            &&& crate::params::key_index(es, 2) < 0 ==> r.km_suffix_image_index == v.km_suffix_image_index
            &&& crate::params::key_index(es, 2) >= 0 ==> r.km_suffix_image_index == spec_img_id_field(es[crate::params::key_index(es, 2)].1).unwrap()
            &&& crate::params::key_index(es, 3) < 0 ==> r.decimal_point_image_index == v.decimal_point_image_index
            &&& crate::params::key_index(es, 3) >= 0 ==> r.decimal_point_image_index == spec_img_id_field(es[crate::params::key_index(es, 3)].1).unwrap()
            &&& crate::params::key_index(es, 4) < 0 ==> r.miles_suffix_image_index == v.miles_suffix_image_index
            &&& crate::params::key_index(es, 4) >= 0 ==> r.miles_suffix_image_index == spec_img_id_field(es[crate::params::key_index(es, 4)].1).unwrap()
        },
    decreases es.len(),
{
    if es.len() > 0 {
        crate::transform::lemma_fold_last::<Distance>(v, es);
        law_distance_fields(v, es.drop_last());
        let d = es.drop_last();
        assert(crate::params::distinct_keys(es) ==> crate::params::distinct_keys(d));
        assert(es[es.len() - 1] == es.last());
        assert forall|k: u8| es.last().0 != k implies crate::params::key_index(es, k) == crate::params::key_index(d, k) && (crate::params::key_index(d, k) >= 0
            ==> es[crate::params::key_index(d, k)] == d[crate::params::key_index(d, k)]) by {
            crate::params::lemma_key_index_range(d, k);
        }
        assert forall|k: u8| es.last().0 == k && crate::params::distinct_keys(es) implies crate::params::key_index(d, k) < 0 by {
            crate::params::lemma_key_index_range(d, k);
            if crate::params::key_index(d, k) >= 0 {
                assert(es[crate::params::key_index(d, k)].0 == k);
            }
        }
    }
}

/// The parameters of PAI.
#[derive(Debug, PartialEq, Default)]
pub struct PAI {
    pub number: Option<NumberInRect>,
}

impl View for PAI {
    type V = PAI;

    open spec fn view(&self) -> PAI {
        *self
    }
}

impl Transform for PAI {
    open spec fn spec_blank() -> PAI {
        PAI {
            number: None,
        }
    }

    open spec fn spec_apply(v: PAI, key: u8, vals: Seq<PValue>) -> Option<PAI> {
        if key == 1 {
            match spec_option::<NumberInRect>(v.number, vals) {
                Some(x) => Some(PAI {
                    number: x,
                }),
                None => None,
            }
        } else {
            Some(v)
        }
    }

    fn blank() -> (r: Self) {
        let r = PAI {
            number: None,
        };
        r
    }

    fn apply(&mut self, key: u8, vals: &Vec<Param>) -> (r: Result<(), ParseError>) {
        if key == 1 {
            transform_option::<NumberInRect>(&mut self.number, vals)
        } else {
            Ok(())
        }
    }
}

/// Filling a `PAI` with entries: a field whose key occurs in no entry
/// keeps its value; one whose key occurs holds the value read from the last
/// entry under it, or, for an element field, read into its value from
/// before where no key occurs twice.
pub proof fn law_pai_fields(v: PAI, es: Seq<(u8, Seq<PValue>)>)
    ensures
        crate::transform::spec_fold::<PAI>(v, es) matches Some(r) ==> {
            &&& crate::params::key_index(es, 1) < 0 ==> r.number == v.number
            &&& crate::params::distinct_keys(es) && crate::params::key_index(es, 1) >= 0 ==> r.number == spec_option::<NumberInRect>(v.number, es[crate::params::key_index(es, 1)].1).unwrap()
        },
    decreases es.len(),
{
    if es.len() > 0 {
        crate::transform::lemma_fold_last::<PAI>(v, es);
        law_pai_fields(v, es.drop_last());
        let d = es.drop_last();
        assert(crate::params::distinct_keys(es) ==> crate::params::distinct_keys(d));
        assert(es[es.len() - 1] == es.last());
        assert forall|k: u8| es.last().0 != k implies crate::params::key_index(es, k) == crate::params::key_index(d, k) && (crate::params::key_index(d, k) >= 0
            ==> es[crate::params::key_index(d, k)] == d[crate::params::key_index(d, k)]) by {
            crate::params::lemma_key_index_range(d, k);
        }
        assert forall|k: u8| es.last().0 == k && crate::params::distinct_keys(es) implies crate::params::key_index(d, k) < 0 by {
            crate::params::lemma_key_index_range(d, k);
            if crate::params::key_index(d, k) >= 0 {
                assert(es[crate::params::key_index(d, k)].0 == k);
            }
        }
    }
}

/// The parameters of Date.
#[derive(Debug, PartialEq, Default)]
pub struct Date {
    pub month_and_day_and_year: Option<MonthAndDayAndYear>,
    pub day_am_pm: Option<DayAmPm>,
    pub en_week_days: Option<ImageRange>,
    pub cn_week_days: Option<ImageRange>,
    pub cn2_week_days: Option<ImageRange>,
}

impl View for Date {
    type V = Date;

    open spec fn view(&self) -> Date {
        *self
    }
}

impl Transform for Date {
    open spec fn spec_blank() -> Date {
        Date {
            month_and_day_and_year: None,
            day_am_pm: None,
            en_week_days: None,
            cn_week_days: None,
            cn2_week_days: None,
        }
    }

    open spec fn spec_apply(v: Date, key: u8, vals: Seq<PValue>) -> Option<Date> {
        if key == 1 {
            match spec_option::<MonthAndDayAndYear>(v.month_and_day_and_year, vals) {
                Some(x) => Some(Date {
                    month_and_day_and_year: x,
                    day_am_pm: v.day_am_pm,
                    en_week_days: v.en_week_days,
                    cn_week_days: v.cn_week_days,
                    cn2_week_days: v.cn2_week_days,
                }),
                None => None,
            }
        } else if key == 2 {
            match spec_option::<DayAmPm>(v.day_am_pm, vals) {
                Some(x) => Some(Date {
                    month_and_day_and_year: v.month_and_day_and_year,
                    day_am_pm: x,
                    en_week_days: v.en_week_days,
                    cn_week_days: v.cn_week_days,
                    cn2_week_days: v.cn2_week_days,
                }),
                None => None,
            }
        } else if key == 4 {
            match spec_option::<ImageRange>(v.en_week_days, vals) {
                Some(x) => Some(Date {
                    month_and_day_and_year: v.month_and_day_and_year,
                    day_am_pm: v.day_am_pm,
                    en_week_days: x,
                    cn_week_days: v.cn_week_days,
                    cn2_week_days: v.cn2_week_days,
                }),
                None => None,
            }
        } else if key == 5 {
            match spec_option::<ImageRange>(v.cn_week_days, vals) {
                Some(x) => Some(Date {
                    month_and_day_and_year: v.month_and_day_and_year,
                    day_am_pm: v.day_am_pm,
                    en_week_days: v.en_week_days,
                    cn_week_days: x,
                    cn2_week_days: v.cn2_week_days,
                }),
                None => None,
            }
        } else if key == 6 {
            match spec_option::<ImageRange>(v.cn2_week_days, vals) {
                Some(x) => Some(Date {
                    month_and_day_and_year: v.month_and_day_and_year,
                    day_am_pm: v.day_am_pm,
                    en_week_days: v.en_week_days,
                    cn_week_days: v.cn_week_days,
                    cn2_week_days: x,
                }),
                None => None,
            }
        } else {
            Some(v)
        }
    }

    fn blank() -> (r: Self) {
        let r = Date {
            month_and_day_and_year: None,
            day_am_pm: None,
            en_week_days: None,
            cn_week_days: None,
            cn2_week_days: None,
        };
        r
    }

    fn apply(&mut self, key: u8, vals: &Vec<Param>) -> (r: Result<(), ParseError>) {
        if key == 1 {
            transform_option::<MonthAndDayAndYear>(&mut self.month_and_day_and_year, vals)
        } else if key == 2 {
            transform_option::<DayAmPm>(&mut self.day_am_pm, vals)
        } else if key == 4 {
            transform_option::<ImageRange>(&mut self.en_week_days, vals)
        } else if key == 5 {
            transform_option::<ImageRange>(&mut self.cn_week_days, vals)
        } else if key == 6 {
            transform_option::<ImageRange>(&mut self.cn2_week_days, vals)
        } else {
            Ok(())
        }
    }
}

/// Filling a `Date` with entries: a field whose key occurs in no entry
/// keeps its value; one whose key occurs holds the value read from the last
/// entry under it, or, for an element field, read into its value from
/// before where no key occurs twice.
pub proof fn law_date_fields(v: Date, es: Seq<(u8, Seq<PValue>)>)
    ensures
        crate::transform::spec_fold::<Date>(v, es) matches Some(r) ==> {
            &&& crate::params::key_index(es, 1) < 0 ==> r.month_and_day_and_year == v.month_and_day_and_year
            &&& crate::params::distinct_keys(es) && crate::params::key_index(es, 1) >= 0 ==> r.month_and_day_and_year == spec_option::<MonthAndDayAndYear>(v.month_and_day_and_year, es[crate::params::key_index(es, 1)].1).unwrap()
            &&& crate::params::key_index(es, 2) < 0 ==> r.day_am_pm == v.day_am_pm
            &&& crate::params::distinct_keys(es) && crate::params::key_index(es, 2) >= 0 ==> r.day_am_pm == spec_option::<DayAmPm>(v.day_am_pm, es[crate::params::key_index(es, 2)].1).unwrap()
            &&& crate::params::key_index(es, 4) < 0 ==> r.en_week_days == v.en_week_days
            &&& crate::params::distinct_keys(es) && crate::params::key_index(es, 4) >= 0 ==> r.en_week_days == spec_option::<ImageRange>(v.en_week_days, es[crate::params::key_index(es, 4)].1).unwrap()
            &&& crate::params::key_index(es, 5) < 0 ==> r.cn_week_days == v.cn_week_days
            &&& crate::params::distinct_keys(es) && crate::params::key_index(es, 5) >= 0 ==> r.cn_week_days == spec_option::<ImageRange>(v.cn_week_days, es[crate::params::key_index(es, 5)].1).unwrap()
            &&& crate::params::key_index(es, 6) < 0 ==> r.cn2_week_days == v.cn2_week_days
            &&& crate::params::distinct_keys(es) && crate::params::key_index(es, 6) >= 0 ==> r.cn2_week_days == spec_option::<ImageRange>(v.cn2_week_days, es[crate::params::key_index(es, 6)].1).unwrap()
        },
    decreases es.len(),
{
    if es.len() > 0 {
        crate::transform::lemma_fold_last::<Date>(v, es);
        law_date_fields(v, es.drop_last());
        let d = es.drop_last();
        assert(crate::params::distinct_keys(es) ==> crate::params::distinct_keys(d));
        assert(es[es.len() - 1] == es.last());
        assert forall|k: u8| es.last().0 != k implies crate::params::key_index(es, k) == crate::params::key_index(d, k) && (crate::params::key_index(d, k) >= 0
            ==> es[crate::params::key_index(d, k)] == d[crate::params::key_index(d, k)]) by {
            crate::params::lemma_key_index_range(d, k);
        }
        assert forall|k: u8| es.last().0 == k && crate::params::distinct_keys(es) implies crate::params::key_index(d, k) < 0 by {
            crate::params::lemma_key_index_range(d, k);
            if crate::params::key_index(d, k) >= 0 {
                assert(es[crate::params::key_index(d, k)].0 == k);
            }
        }
    }
}

/// The parameters of MonthAndDayAndYear.
#[derive(Debug, PartialEq, Default)]
pub struct MonthAndDayAndYear {
    pub separate: Option<Separate>,
    pub one_line: Option<OneLine>,
    pub one_line_with_year: Option<OneLine>,
    pub two_digits_month: Option<bool>,
    pub two_digits_day: Option<bool>,
}

impl View for MonthAndDayAndYear {
    type V = MonthAndDayAndYear;

    open spec fn view(&self) -> MonthAndDayAndYear {
        *self
    }
}

impl Transform for MonthAndDayAndYear {
    open spec fn spec_blank() -> MonthAndDayAndYear {
        MonthAndDayAndYear {
            separate: None,
            one_line: None,
            one_line_with_year: None,
            two_digits_month: None,
            two_digits_day: None,
        }
    }

    open spec fn spec_apply(v: MonthAndDayAndYear, key: u8, vals: Seq<PValue>) -> Option<MonthAndDayAndYear> {
        if key == 1 {
            match spec_option::<Separate>(v.separate, vals) {
                Some(x) => Some(MonthAndDayAndYear {
                    separate: x,
                    one_line: v.one_line,
                    one_line_with_year: v.one_line_with_year,
                    two_digits_month: v.two_digits_month,
                    two_digits_day: v.two_digits_day,
                }),
                None => None,
            }
        } else if key == 2 {
            match spec_option::<OneLine>(v.one_line, vals) {
                Some(x) => Some(MonthAndDayAndYear {
                    separate: v.separate,
                    one_line: x,
                    one_line_with_year: v.one_line_with_year,
                    two_digits_month: v.two_digits_month,
                    two_digits_day: v.two_digits_day,
                }),
                None => None,
            }
        } else if key == 3 {
            match spec_option::<OneLine>(v.one_line_with_year, vals) {
                Some(x) => Some(MonthAndDayAndYear {
                    separate: v.separate,
                    one_line: v.one_line,
                    one_line_with_year: x,
                    two_digits_month: v.two_digits_month,
                    two_digits_day: v.two_digits_day,
                }),
                None => None,
            }
        } else if key == 4 {
            match spec_bool_field(vals) {
                Some(x) => Some(MonthAndDayAndYear {
                    separate: v.separate,
                    one_line: v.one_line,
                    one_line_with_year: v.one_line_with_year,
                    two_digits_month: x,
                    two_digits_day: v.two_digits_day,
                }),
                None => None,
            }
        } else if key == 5 {
            match spec_bool_field(vals) {
                Some(x) => Some(MonthAndDayAndYear {
                    separate: v.separate,
                    one_line: v.one_line,
                    one_line_with_year: v.one_line_with_year,
                    two_digits_month: v.two_digits_month,
                    two_digits_day: x,
                }),
                None => None,
            }
        } else {
            Some(v)
        }
    }

    fn blank() -> (r: Self) {
        let r = MonthAndDayAndYear {
            separate: None,
            one_line: None,
            one_line_with_year: None,
            two_digits_month: None,
            two_digits_day: None,
        };
        r
    }

    fn apply(&mut self, key: u8, vals: &Vec<Param>) -> (r: Result<(), ParseError>) {
        if key == 1 {
            transform_option::<Separate>(&mut self.separate, vals)
        } else if key == 2 {
            transform_option::<OneLine>(&mut self.one_line, vals)
        } else if key == 3 {
            transform_option::<OneLine>(&mut self.one_line_with_year, vals)
        } else if key == 4 {
            transform_bool(&mut self.two_digits_month, vals)
        } else if key == 5 {
            transform_bool(&mut self.two_digits_day, vals)
        } else {
            Ok(())
        }
    }
}

/// Filling a `MonthAndDayAndYear` with entries: a field whose key occurs in no entry
/// keeps its value; one whose key occurs holds the value read from the last
/// entry under it, or, for an element field, read into its value from
/// before where no key occurs twice.
pub proof fn law_month_and_day_and_year_fields(v: MonthAndDayAndYear, es: Seq<(u8, Seq<PValue>)>)
    ensures
        crate::transform::spec_fold::<MonthAndDayAndYear>(v, es) matches Some(r) ==> {
            &&& crate::params::key_index(es, 1) < 0 ==> r.separate == v.separate
            &&& crate::params::distinct_keys(es) && crate::params::key_index(es, 1) >= 0 ==> r.separate == spec_option::<Separate>(v.separate, es[crate::params::key_index(es, 1)].1).unwrap()
            &&& crate::params::key_index(es, 2) < 0 ==> r.one_line == v.one_line
            &&& crate::params::distinct_keys(es) && crate::params::key_index(es, 2) >= 0 ==> r.one_line == spec_option::<OneLine>(v.one_line, es[crate::params::key_index(es, 2)].1).unwrap()
            &&& crate::params::key_index(es, 3) < 0 ==> r.one_line_with_year == v.one_line_with_year
            &&& crate::params::distinct_keys(es) && crate::params::key_index(es, 3) >= 0 ==> r.one_line_with_year == spec_option::<OneLine>(v.one_line_with_year, es[crate::params::key_index(es, 3)].1).unwrap()
            &&& crate::params::key_index(es, 4) < 0 ==> r.two_digits_month == v.two_digits_month
            &&& crate::params::key_index(es, 4) >= 0 ==> r.two_digits_month == spec_bool_field(es[crate::params::key_index(es, 4)].1).unwrap()
            &&& crate::params::key_index(es, 5) < 0 ==> r.two_digits_day == v.two_digits_day
            &&& crate::params::key_index(es, 5) >= 0 ==> r.two_digits_day == spec_bool_field(es[crate::params::key_index(es, 5)].1).unwrap()
        },
    decreases es.len(),
{
    if es.len() > 0 {
        crate::transform::lemma_fold_last::<MonthAndDayAndYear>(v, es);
        law_month_and_day_and_year_fields(v, es.drop_last());
        let d = es.drop_last();
        assert(crate::params::distinct_keys(es) ==> crate::params::distinct_keys(d));
        assert(es[es.len() - 1] == es.last());
        assert forall|k: u8| es.last().0 != k implies crate::params::key_index(es, k) == crate::params::key_index(d, k) && (crate::params::key_index(d, k) >= 0
            ==> es[crate::params::key_index(d, k)] == d[crate::params::key_index(d, k)]) by {
            crate::params::lemma_key_index_range(d, k);
        }
        assert forall|k: u8| es.last().0 == k && crate::params::distinct_keys(es) implies crate::params::key_index(d, k) < 0 by {
            crate::params::lemma_key_index_range(d, k);
            if crate::params::key_index(d, k) >= 0 {
                assert(es[crate::params::key_index(d, k)].0 == k);
            }
        }
    }
}

/// The parameters of Separate.
#[derive(Debug, PartialEq, Default)]
pub struct Separate {
    pub month: Option<NumberInRect>,
    pub months_en: Option<ImageRange>,
    pub months_cn: Option<ImageRange>,
    pub day: Option<NumberInRect>,
}

impl View for Separate {
    type V = Separate;

    open spec fn view(&self) -> Separate {
        *self
    }
}

impl Transform for Separate {
    open spec fn spec_blank() -> Separate {
        Separate {
            month: None,
            months_en: None,
            months_cn: None,
            day: None,
        }
    }

    open spec fn spec_apply(v: Separate, key: u8, vals: Seq<PValue>) -> Option<Separate> {
        if key == 1 {
            match spec_option::<NumberInRect>(v.month, vals) {
                Some(x) => Some(Separate {
                    month: x,
                    months_en: v.months_en,
                    months_cn: v.months_cn,
                    day: v.day,
                }),
                None => None,
            }
        } else if key == 2 {
            match spec_option::<ImageRange>(v.months_en, vals) {
                Some(x) => Some(Separate {
                    month: v.month,
                    months_en: x,
                    months_cn: v.months_cn,
                    day: v.day,
                }),
                None => None,
            }
        } else if key == 3 {
            match spec_option::<ImageRange>(v.months_cn, vals) {
                Some(x) => Some(Separate {
                    month: v.month,
                    months_en: v.months_en,
                    months_cn: x,
                    day: v.day,
                }),
                None => None,
            }
        } else if key == 4 {
            match spec_option::<NumberInRect>(v.day, vals) {
                Some(x) => Some(Separate {
                    month: v.month,
                    months_en: v.months_en,
                    months_cn: v.months_cn,
                    day: x,
                }),
                None => None,
            }
        } else {
            Some(v)
        }
    }

    fn blank() -> (r: Self) {
        let r = Separate {
            month: None,
            months_en: None,
            months_cn: None,
            day: None,
        };
        r
    }

    fn apply(&mut self, key: u8, vals: &Vec<Param>) -> (r: Result<(), ParseError>) {
        if key == 1 {
            transform_option::<NumberInRect>(&mut self.month, vals)
        } else if key == 2 {
            transform_option::<ImageRange>(&mut self.months_en, vals)
        } else if key == 3 {
            transform_option::<ImageRange>(&mut self.months_cn, vals)
        } else if key == 4 {
            transform_option::<NumberInRect>(&mut self.day, vals)
        } else {
            Ok(())
        }
    }
}

/// Filling a `Separate` with entries: a field whose key occurs in no entry
/// keeps its value; one whose key occurs holds the value read from the last
/// entry under it, or, for an element field, read into its value from
/// before where no key occurs twice.
pub proof fn law_separate_fields(v: Separate, es: Seq<(u8, Seq<PValue>)>)
    ensures
        crate::transform::spec_fold::<Separate>(v, es) matches Some(r) ==> {
            &&& crate::params::key_index(es, 1) < 0 ==> r.month == v.month
            &&& crate::params::distinct_keys(es) && crate::params::key_index(es, 1) >= 0 ==> r.month == spec_option::<NumberInRect>(v.month, es[crate::params::key_index(es, 1)].1).unwrap()
            &&& crate::params::key_index(es, 2) < 0 ==> r.months_en == v.months_en
            &&& crate::params::distinct_keys(es) && crate::params::key_index(es, 2) >= 0 ==> r.months_en == spec_option::<ImageRange>(v.months_en, es[crate::params::key_index(es, 2)].1).unwrap()
            &&& crate::params::key_index(es, 3) < 0 ==> r.months_cn == v.months_cn
            &&& crate::params::distinct_keys(es) && crate::params::key_index(es, 3) >= 0 ==> r.months_cn == spec_option::<ImageRange>(v.months_cn, es[crate::params::key_index(es, 3)].1).unwrap()
            &&& crate::params::key_index(es, 4) < 0 ==> r.day == v.day
            &&& crate::params::distinct_keys(es) && crate::params::key_index(es, 4) >= 0 ==> r.day == spec_option::<NumberInRect>(v.day, es[crate::params::key_index(es, 4)].1).unwrap()
        },
    decreases es.len(),
{
    if es.len() > 0 {
        crate::transform::lemma_fold_last::<Separate>(v, es);
        law_separate_fields(v, es.drop_last());
        let d = es.drop_last();
        assert(crate::params::distinct_keys(es) ==> crate::params::distinct_keys(d));
        assert(es[es.len() - 1] == es.last());
        assert forall|k: u8| es.last().0 != k implies crate::params::key_index(es, k) == crate::params::key_index(d, k) && (crate::params::key_index(d, k) >= 0
            ==> es[crate::params::key_index(d, k)] == d[crate::params::key_index(d, k)]) by {
            crate::params::lemma_key_index_range(d, k);
        }
        assert forall|k: u8| es.last().0 == k && crate::params::distinct_keys(es) implies crate::params::key_index(d, k) < 0 by {
            crate::params::lemma_key_index_range(d, k);
            if crate::params::key_index(d, k) >= 0 {
                assert(es[crate::params::key_index(d, k)].0 == k);
            }
        }
    }
}

/// The parameters of OneLine.
#[derive(Debug, PartialEq, Default)]
pub struct OneLine {
    pub number: Option<NumberInRect>,
    pub delimiter_image_index: Option<ImgId>,
}

impl View for OneLine {
    type V = OneLine;

    open spec fn view(&self) -> OneLine {
        *self
    }
}

impl Transform for OneLine {
    open spec fn spec_blank() -> OneLine {
        OneLine {
            number: None,
            delimiter_image_index: None,
        }
    }

    open spec fn spec_apply(v: OneLine, key: u8, vals: Seq<PValue>) -> Option<OneLine> {
        if key == 1 {
            match spec_option::<NumberInRect>(v.number, vals) {
                Some(x) => Some(OneLine {
                    number: x,
                    delimiter_image_index: v.delimiter_image_index,
                }),
                None => None,
            }
        } else if key == 2 {
            match spec_img_id_field(vals) {
                Some(x) => Some(OneLine {
                    number: v.number,
                    delimiter_image_index: x,
                }),
                None => None,
            }
        } else {
            Some(v)
        }
    }

    fn blank() -> (r: Self) {
        let r = OneLine {
            number: None,
            delimiter_image_index: None,
        };
        r
    }

    fn apply(&mut self, key: u8, vals: &Vec<Param>) -> (r: Result<(), ParseError>) {
        if key == 1 {
            transform_option::<NumberInRect>(&mut self.number, vals)
        } else if key == 2 {
            transform_img_id(&mut self.delimiter_image_index, vals)
        } else {
            Ok(())
        }
    }
}

/// Filling a `OneLine` with entries: a field whose key occurs in no entry
/// keeps its value; one whose key occurs holds the value read from the last
/// entry under it, or, for an element field, read into its value from
/// before where no key occurs twice.
pub proof fn law_one_line_fields(v: OneLine, es: Seq<(u8, Seq<PValue>)>)
    ensures
        crate::transform::spec_fold::<OneLine>(v, es) matches Some(r) ==> {
            &&& crate::params::key_index(es, 1) < 0 ==> r.number == v.number
            &&& crate::params::distinct_keys(es) && crate::params::key_index(es, 1) >= 0 ==> r.number == spec_option::<NumberInRect>(v.number, es[crate::params::key_index(es, 1)].1).unwrap()
            &&& crate::params::key_index(es, 2) < 0 ==> r.delimiter_image_index == v.delimiter_image_index
            &&& crate::params::key_index(es, 2) >= 0 ==> r.delimiter_image_index == spec_img_id_field(es[crate::params::key_index(es, 2)].1).unwrap()
        },
    decreases es.len(),
{
    if es.len() > 0 {
        crate::transform::lemma_fold_last::<OneLine>(v, es);
        law_one_line_fields(v, es.drop_last());
        let d = es.drop_last();
        assert(crate::params::distinct_keys(es) ==> crate::params::distinct_keys(d));
        assert(es[es.len() - 1] == es.last());
        assert forall|k: u8| es.last().0 != k implies crate::params::key_index(es, k) == crate::params::key_index(d, k) && (crate::params::key_index(d, k) >= 0
            ==> es[crate::params::key_index(d, k)] == d[crate::params::key_index(d, k)]) by {
            crate::params::lemma_key_index_range(d, k);
        }
        assert forall|k: u8| es.last().0 == k && crate::params::distinct_keys(es) implies crate::params::key_index(d, k) < 0 by {
            crate::params::lemma_key_index_range(d, k);
            if crate::params::key_index(d, k) >= 0 {
                assert(es[crate::params::key_index(d, k)].0 == k);
            }
        }
    }
}

/// The parameters of DayAmPm.
#[derive(Debug, PartialEq, Default)]
pub struct DayAmPm {
    pub x: i32,
    pub y: i32,
    pub image_index_amcn: Option<ImgId>,
    pub image_index_pmcn: Option<ImgId>,
    pub image_index_amen: Option<ImgId>,
    pub image_index_pmen: Option<ImgId>,
    pub x_en: Option<u32>,
    pub y_en: Option<u32>,
}

impl View for DayAmPm {
    type V = DayAmPm;

    open spec fn view(&self) -> DayAmPm {
        *self
    }
}

impl Transform for DayAmPm {
    open spec fn spec_blank() -> DayAmPm {
        DayAmPm {
            x: 0i32,
            y: 0i32,
            image_index_amcn: None,
            image_index_pmcn: None,
            image_index_amen: None,
            image_index_pmen: None,
            x_en: None,
            y_en: None,
        }
    }

    open spec fn spec_apply(v: DayAmPm, key: u8, vals: Seq<PValue>) -> Option<DayAmPm> {
        if key == 1 {
            match spec_i32_field(vals) {
                Some(x) => Some(DayAmPm {
                    x: x,
                    y: v.y,
                    image_index_amcn: v.image_index_amcn,
                    image_index_pmcn: v.image_index_pmcn,
                    image_index_amen: v.image_index_amen,
                    image_index_pmen: v.image_index_pmen,
                    x_en: v.x_en,
                    y_en: v.y_en,
                }),
                None => None,
            }
        } else if key == 2 {
            match spec_i32_field(vals) {
                Some(x) => Some(DayAmPm {
                    x: v.x,
                    y: x,
                    image_index_amcn: v.image_index_amcn,
                    image_index_pmcn: v.image_index_pmcn,
                    image_index_amen: v.image_index_amen,
                    image_index_pmen: v.image_index_pmen,
                    x_en: v.x_en,
                    y_en: v.y_en,
                }),
                None => None,
            }
        } else if key == 3 {
            match spec_img_id_field(vals) {
                Some(x) => Some(DayAmPm {
                    x: v.x,
                    y: v.y,
                    image_index_amcn: x,
                    image_index_pmcn: v.image_index_pmcn,
                    image_index_amen: v.image_index_amen,
                    image_index_pmen: v.image_index_pmen,
                    x_en: v.x_en,
                    y_en: v.y_en,
                }),
                None => None,
            }
        } else if key == 4 {
            match spec_img_id_field(vals) {
                Some(x) => Some(DayAmPm {
                    x: v.x,
                    y: v.y,
                    image_index_amcn: v.image_index_amcn,
                    image_index_pmcn: x,
                    image_index_amen: v.image_index_amen,
                    image_index_pmen: v.image_index_pmen,
                    x_en: v.x_en,
                    y_en: v.y_en,
                }),
                None => None,
            }
        } else if key == 5 {
            match spec_img_id_field(vals) {
                Some(x) => Some(DayAmPm {
                    x: v.x,
                    y: v.y,
                    image_index_amcn: v.image_index_amcn,
                    image_index_pmcn: v.image_index_pmcn,
                    image_index_amen: x,
                    image_index_pmen: v.image_index_pmen,
                    x_en: v.x_en,
                    y_en: v.y_en,
                }),
                None => None,
            }
        } else if key == 6 {
            match spec_img_id_field(vals) {
                Some(x) => Some(DayAmPm {
                    x: v.x,
                    y: v.y,
                    image_index_amcn: v.image_index_amcn,
                    image_index_pmcn: v.image_index_pmcn,
                    image_index_amen: v.image_index_amen,
                    image_index_pmen: x,
                    x_en: v.x_en,
                    y_en: v.y_en,
                }),
                None => None,
            }
        } else if key == 7 {
            match spec_u32_field(vals) {
                Some(x) => Some(DayAmPm {
                    x: v.x,
                    y: v.y,
                    image_index_amcn: v.image_index_amcn,
                    image_index_pmcn: v.image_index_pmcn,
                    image_index_amen: v.image_index_amen,
                    image_index_pmen: v.image_index_pmen,
                    x_en: x,
                    y_en: v.y_en,
                }),
                None => None,
            }
        } else if key == 8 {
            match spec_u32_field(vals) {
                Some(x) => Some(DayAmPm {
                    x: v.x,
                    y: v.y,
                    image_index_amcn: v.image_index_amcn,
                    image_index_pmcn: v.image_index_pmcn,
                    image_index_amen: v.image_index_amen,
                    image_index_pmen: v.image_index_pmen,
                    x_en: v.x_en,
                    y_en: x,
                }),
                None => None,
            }
        } else {
            Some(v)
        }
    }

    fn blank() -> (r: Self) {
        let r = DayAmPm {
            x: 0,
            y: 0,
            image_index_amcn: None,
            image_index_pmcn: None,
            image_index_amen: None,
            image_index_pmen: None,
            x_en: None,
            y_en: None,
        };
        r
    }

    fn apply(&mut self, key: u8, vals: &Vec<Param>) -> (r: Result<(), ParseError>) {
        if key == 1 {
            transform_i32(&mut self.x, vals)
        } else if key == 2 {
            transform_i32(&mut self.y, vals)
        } else if key == 3 {
            transform_img_id(&mut self.image_index_amcn, vals)
        } else if key == 4 {
            transform_img_id(&mut self.image_index_pmcn, vals)
        } else if key == 5 {
            transform_img_id(&mut self.image_index_amen, vals)
        } else if key == 6 {
            transform_img_id(&mut self.image_index_pmen, vals)
        } else if key == 7 {
            transform_u32(&mut self.x_en, vals)
        } else if key == 8 {
            transform_u32(&mut self.y_en, vals)
        } else {
            Ok(())
        }
    }
}

/// Filling a `DayAmPm` with entries: a field whose key occurs in no entry
/// keeps its value; one whose key occurs holds the value read from the last
/// entry under it, or, for an element field, read into its value from
/// before where no key occurs twice.
pub proof fn law_day_am_pm_fields(v: DayAmPm, es: Seq<(u8, Seq<PValue>)>)
    ensures
        crate::transform::spec_fold::<DayAmPm>(v, es) matches Some(r) ==> {
            &&& crate::params::key_index(es, 1) < 0 ==> r.x == v.x
            &&& crate::params::key_index(es, 1) >= 0 ==> r.x == spec_i32_field(es[crate::params::key_index(es, 1)].1).unwrap()
            &&& crate::params::key_index(es, 2) < 0 ==> r.y == v.y
            &&& crate::params::key_index(es, 2) >= 0 ==> r.y == spec_i32_field(es[crate::params::key_index(es, 2)].1).unwrap()
            &&& crate::params::key_index(es, 3) < 0 ==> r.image_index_amcn == v.image_index_amcn
            &&& crate::params::key_index(es, 3) >= 0 ==> r.image_index_amcn == spec_img_id_field(es[crate::params::key_index(es, 3)].1).unwrap()
            &&& crate::params::key_index(es, 4) < 0 ==> r.image_index_pmcn == v.image_index_pmcn
            &&& crate::params::key_index(es, 4) >= 0 ==> r.image_index_pmcn == spec_img_id_field(es[crate::params::key_index(es, 4)].1).unwrap()
            &&& crate::params::key_index(es, 5) < 0 ==> r.image_index_amen == v.image_index_amen
            &&& crate::params::key_index(es, 5) >= 0 ==> r.image_index_amen == spec_img_id_field(es[crate::params::key_index(es, 5)].1).unwrap()
            &&& crate::params::key_index(es, 6) < 0 ==> r.image_index_pmen == v.image_index_pmen
            &&& crate::params::key_index(es, 6) >= 0 ==> r.image_index_pmen == spec_img_id_field(es[crate::params::key_index(es, 6)].1).unwrap()
            &&& crate::params::key_index(es, 7) < 0 ==> r.x_en == v.x_en
            &&& crate::params::key_index(es, 7) >= 0 ==> r.x_en == spec_u32_field(es[crate::params::key_index(es, 7)].1).unwrap()
            &&& crate::params::key_index(es, 8) < 0 ==> r.y_en == v.y_en
            &&& crate::params::key_index(es, 8) >= 0 ==> r.y_en == spec_u32_field(es[crate::params::key_index(es, 8)].1).unwrap()
        },
    decreases es.len(),
{
    if es.len() > 0 {
        crate::transform::lemma_fold_last::<DayAmPm>(v, es);
        law_day_am_pm_fields(v, es.drop_last());
        let d = es.drop_last();
        assert(crate::params::distinct_keys(es) ==> crate::params::distinct_keys(d));
        assert(es[es.len() - 1] == es.last());
        assert forall|k: u8| es.last().0 != k implies crate::params::key_index(es, k) == crate::params::key_index(d, k) && (crate::params::key_index(d, k) >= 0
            ==> es[crate::params::key_index(d, k)] == d[crate::params::key_index(d, k)]) by {
            crate::params::lemma_key_index_range(d, k);
        }
        assert forall|k: u8| es.last().0 == k && crate::params::distinct_keys(es) implies crate::params::key_index(d, k) < 0 by {
            crate::params::lemma_key_index_range(d, k);
            if crate::params::key_index(d, k) >= 0 {
                assert(es[crate::params::key_index(d, k)].0 == k);
            }
        }
    }
}

/// The parameters of Status.
#[derive(Debug, PartialEq, Default)]
pub struct Status {
    pub do_not_disturb: Option<StatusImage>,
    pub lock: Option<StatusImage>,
    pub bluetooth: Option<StatusImage>,
}

impl View for Status {
    type V = Status;

    open spec fn view(&self) -> Status {
        *self
    }
}

impl Transform for Status {
    open spec fn spec_blank() -> Status {
        Status {
            do_not_disturb: None,
            lock: None,
            bluetooth: None,
        }
    }

    open spec fn spec_apply(v: Status, key: u8, vals: Seq<PValue>) -> Option<Status> {
        if key == 1 {
            match spec_option::<StatusImage>(v.do_not_disturb, vals) {
                Some(x) => Some(Status {
                    do_not_disturb: x,
                    lock: v.lock,
                    bluetooth: v.bluetooth,
                }),
                None => None,
            }
        } else if key == 2 {
            match spec_option::<StatusImage>(v.lock, vals) {
                Some(x) => Some(Status {
                    do_not_disturb: v.do_not_disturb,
                    lock: x,
                    bluetooth: v.bluetooth,
                }),
                None => None,
            }
        } else if key == 3 {
            match spec_option::<StatusImage>(v.bluetooth, vals) {
                Some(x) => Some(Status {
                    do_not_disturb: v.do_not_disturb,
                    lock: v.lock,
                    bluetooth: x,
                }),
                None => None,
            }
        } else {
            Some(v)
        }
    }

    fn blank() -> (r: Self) {
        let r = Status {
            do_not_disturb: None,
            lock: None,
            bluetooth: None,
        };
        r
    }

    fn apply(&mut self, key: u8, vals: &Vec<Param>) -> (r: Result<(), ParseError>) {
        if key == 1 {
            transform_option::<StatusImage>(&mut self.do_not_disturb, vals)
        } else if key == 2 {
            transform_option::<StatusImage>(&mut self.lock, vals)
        } else if key == 3 {
            transform_option::<StatusImage>(&mut self.bluetooth, vals)
        } else {
            Ok(())
        }
    }
}

/// Filling a `Status` with entries: a field whose key occurs in no entry
/// keeps its value; one whose key occurs holds the value read from the last
/// entry under it, or, for an element field, read into its value from
/// before where no key occurs twice.
pub proof fn law_status_fields(v: Status, es: Seq<(u8, Seq<PValue>)>)
    ensures
        crate::transform::spec_fold::<Status>(v, es) matches Some(r) ==> {
            &&& crate::params::key_index(es, 1) < 0 ==> r.do_not_disturb == v.do_not_disturb
            &&& crate::params::distinct_keys(es) && crate::params::key_index(es, 1) >= 0 ==> r.do_not_disturb == spec_option::<StatusImage>(v.do_not_disturb, es[crate::params::key_index(es, 1)].1).unwrap()
            &&& crate::params::key_index(es, 2) < 0 ==> r.lock == v.lock
            &&& crate::params::distinct_keys(es) && crate::params::key_index(es, 2) >= 0 ==> r.lock == spec_option::<StatusImage>(v.lock, es[crate::params::key_index(es, 2)].1).unwrap()
            &&& crate::params::key_index(es, 3) < 0 ==> r.bluetooth == v.bluetooth
            &&& crate::params::distinct_keys(es) && crate::params::key_index(es, 3) >= 0 ==> r.bluetooth == spec_option::<StatusImage>(v.bluetooth, es[crate::params::key_index(es, 3)].1).unwrap()
        },
    decreases es.len(),
{
    if es.len() > 0 {
        crate::transform::lemma_fold_last::<Status>(v, es);
        law_status_fields(v, es.drop_last());
        let d = es.drop_last();
        assert(crate::params::distinct_keys(es) ==> crate::params::distinct_keys(d));
        assert(es[es.len() - 1] == es.last());
        assert forall|k: u8| es.last().0 != k implies crate::params::key_index(es, k) == crate::params::key_index(d, k) && (crate::params::key_index(d, k) >= 0
            ==> es[crate::params::key_index(d, k)] == d[crate::params::key_index(d, k)]) by {
            crate::params::lemma_key_index_range(d, k);
        }
        assert forall|k: u8| es.last().0 == k && crate::params::distinct_keys(es) implies crate::params::key_index(d, k) < 0 by {
            crate::params::lemma_key_index_range(d, k);
            if crate::params::key_index(d, k) >= 0 {
                assert(es[crate::params::key_index(d, k)].0 == k);
            }
        }
    }
}

/// The parameters of Weather.
#[derive(Debug, PartialEq, Default)]
pub struct Weather {
    pub icon: Option<Icon>,
    pub temperature: Option<Temperature>,
    pub air_quality: Option<AirQuality>,
    pub humidity: Option<Humidity>,
    pub wind: Option<Wind>,
    pub uv_index: Option<UVIndex>,
}

impl View for Weather {
    type V = Weather;

    open spec fn view(&self) -> Weather {
        *self
    }
}

impl Transform for Weather {
    open spec fn spec_blank() -> Weather {
        Weather {
            icon: None,
            temperature: None,
            air_quality: None,
            humidity: None,
            wind: None,
            uv_index: None,
        }
    }

    open spec fn spec_apply(v: Weather, key: u8, vals: Seq<PValue>) -> Option<Weather> {
        if key == 1 {
            match spec_option::<Icon>(v.icon, vals) {
                Some(x) => Some(Weather {
                    icon: x,
                    temperature: v.temperature,
                    air_quality: v.air_quality,
                    humidity: v.humidity,
                    wind: v.wind,
                    uv_index: v.uv_index,
                }),
                None => None,
            }
        } else if key == 2 {
            match spec_option::<Temperature>(v.temperature, vals) {
                Some(x) => Some(Weather {
                    icon: v.icon,
                    temperature: x,
                    air_quality: v.air_quality,
                    humidity: v.humidity,
                    wind: v.wind,
                    uv_index: v.uv_index,
                }),
                None => None,
            }
        } else if key == 3 {
            match spec_option::<AirQuality>(v.air_quality, vals) {
                Some(x) => Some(Weather {
                    icon: v.icon,
                    temperature: v.temperature,
                    air_quality: x,
                    humidity: v.humidity,
                    wind: v.wind,
                    uv_index: v.uv_index,
                }),
                None => None,
            }
        } else if key == 4 {
            match spec_option::<Humidity>(v.humidity, vals) {
                Some(x) => Some(Weather {
                    icon: v.icon,
                    temperature: v.temperature,
                    air_quality: v.air_quality,
                    humidity: x,
                    wind: v.wind,
                    uv_index: v.uv_index,
                }),
                None => None,
            }
        } else if key == 5 {
            match spec_option::<Wind>(v.wind, vals) {
                Some(x) => Some(Weather {
                    icon: v.icon,
                    temperature: v.temperature,
                    air_quality: v.air_quality,
                    humidity: v.humidity,
                    wind: x,
                    uv_index: v.uv_index,
                }),
                None => None,
            }
        } else if key == 6 {
            match spec_option::<UVIndex>(v.uv_index, vals) {
                Some(x) => Some(Weather {
                    icon: v.icon,
                    temperature: v.temperature,
                    air_quality: v.air_quality,
                    humidity: v.humidity,
                    wind: v.wind,
                    uv_index: x,
                }),
                None => None,
            }
        } else {
            Some(v)
        }
    }

    fn blank() -> (r: Self) {
        let r = Weather {
            icon: None,
            temperature: None,
            air_quality: None,
            humidity: None,
            wind: None,
            uv_index: None,
        };
        r
    }

    fn apply(&mut self, key: u8, vals: &Vec<Param>) -> (r: Result<(), ParseError>) {
        if key == 1 {
            transform_option::<Icon>(&mut self.icon, vals)
        } else if key == 2 {
            transform_option::<Temperature>(&mut self.temperature, vals)
        } else if key == 3 {
            transform_option::<AirQuality>(&mut self.air_quality, vals)
        } else if key == 4 {
            transform_option::<Humidity>(&mut self.humidity, vals)
        } else if key == 5 {
            transform_option::<Wind>(&mut self.wind, vals)
        } else if key == 6 {
            transform_option::<UVIndex>(&mut self.uv_index, vals)
        } else {
            Ok(())
        }
    }
}

/// Filling a `Weather` with entries: a field whose key occurs in no entry
/// keeps its value; one whose key occurs holds the value read from the last
/// entry under it, or, for an element field, read into its value from
/// before where no key occurs twice.
pub proof fn law_weather_fields(v: Weather, es: Seq<(u8, Seq<PValue>)>)
    ensures
        crate::transform::spec_fold::<Weather>(v, es) matches Some(r) ==> {
            &&& crate::params::key_index(es, 1) < 0 ==> r.icon == v.icon
            &&& crate::params::distinct_keys(es) && crate::params::key_index(es, 1) >= 0 ==> r.icon == spec_option::<Icon>(v.icon, es[crate::params::key_index(es, 1)].1).unwrap()
            &&& crate::params::key_index(es, 2) < 0 ==> r.temperature == v.temperature
            &&& crate::params::distinct_keys(es) && crate::params::key_index(es, 2) >= 0 ==> r.temperature == spec_option::<Temperature>(v.temperature, es[crate::params::key_index(es, 2)].1).unwrap()
            &&& crate::params::key_index(es, 3) < 0 ==> r.air_quality == v.air_quality
            &&& crate::params::distinct_keys(es) && crate::params::key_index(es, 3) >= 0 ==> r.air_quality == spec_option::<AirQuality>(v.air_quality, es[crate::params::key_index(es, 3)].1).unwrap()
            &&& crate::params::key_index(es, 4) < 0 ==> r.humidity == v.humidity
            &&& crate::params::distinct_keys(es) && crate::params::key_index(es, 4) >= 0 ==> r.humidity == spec_option::<Humidity>(v.humidity, es[crate::params::key_index(es, 4)].1).unwrap()
            &&& crate::params::key_index(es, 5) < 0 ==> r.wind == v.wind
            &&& crate::params::distinct_keys(es) && crate::params::key_index(es, 5) >= 0 ==> r.wind == spec_option::<Wind>(v.wind, es[crate::params::key_index(es, 5)].1).unwrap()
            &&& crate::params::key_index(es, 6) < 0 ==> r.uv_index == v.uv_index
            &&& crate::params::distinct_keys(es) && crate::params::key_index(es, 6) >= 0 ==> r.uv_index == spec_option::<UVIndex>(v.uv_index, es[crate::params::key_index(es, 6)].1).unwrap()
        },
    decreases es.len(),
{
    if es.len() > 0 {
        crate::transform::lemma_fold_last::<Weather>(v, es);
        law_weather_fields(v, es.drop_last());
        let d = es.drop_last();
        assert(crate::params::distinct_keys(es) ==> crate::params::distinct_keys(d));
        assert(es[es.len() - 1] == es.last());
        assert forall|k: u8| es.last().0 != k implies crate::params::key_index(es, k) == crate::params::key_index(d, k) && (crate::params::key_index(d, k) >= 0
            ==> es[crate::params::key_index(d, k)] == d[crate::params::key_index(d, k)]) by {
            crate::params::lemma_key_index_range(d, k);
        }
        assert forall|k: u8| es.last().0 == k && crate::params::distinct_keys(es) implies crate::params::key_index(d, k) < 0 by {
            crate::params::lemma_key_index_range(d, k);
            if crate::params::key_index(d, k) >= 0 {
                assert(es[crate::params::key_index(d, k)].0 == k);
            }
        }
    }
}

/// The parameters of Icon.
#[derive(Debug, PartialEq, Default)]
pub struct Icon {
    pub custom_icon: Option<ImageRange>,
    pub position1: Option<Coordinates>,
    pub position2: Option<Coordinates>,
}

impl View for Icon {
    type V = Icon;

    open spec fn view(&self) -> Icon {
        *self
    }
}

impl Transform for Icon {
    open spec fn spec_blank() -> Icon {
        Icon {
            custom_icon: None,
            position1: None,
            position2: None,
        }
    }

    open spec fn spec_apply(v: Icon, key: u8, vals: Seq<PValue>) -> Option<Icon> {
        if key == 2 {
            match spec_option::<ImageRange>(v.custom_icon, vals) {
                Some(x) => Some(Icon {
                    custom_icon: x,
                    position1: v.position1,
                    position2: v.position2,
                }),
                None => None,
            }
        } else if key == 3 {
            match spec_option::<Coordinates>(v.position1, vals) {
                Some(x) => Some(Icon {
                    custom_icon: v.custom_icon,
                    position1: x,
                    position2: v.position2,
                }),
                None => None,
            }
        } else if key == 4 {
            match spec_option::<Coordinates>(v.position2, vals) {
                Some(x) => Some(Icon {
                    custom_icon: v.custom_icon,
                    position1: v.position1,
                    position2: x,
                }),
                None => None,
            }
        } else {
            Some(v)
        }
    }

    fn blank() -> (r: Self) {
        let r = Icon {
            custom_icon: None,
            position1: None,
            position2: None,
        };
        r
    }

    fn apply(&mut self, key: u8, vals: &Vec<Param>) -> (r: Result<(), ParseError>) {
        if key == 2 {
            transform_option::<ImageRange>(&mut self.custom_icon, vals)
        } else if key == 3 {
            transform_option::<Coordinates>(&mut self.position1, vals)
        } else if key == 4 {
            transform_option::<Coordinates>(&mut self.position2, vals)
        } else {
            Ok(())
        }
    }
}

/// Filling a `Icon` with entries: a field whose key occurs in no entry
/// keeps its value; one whose key occurs holds the value read from the last
/// entry under it, or, for an element field, read into its value from
/// before where no key occurs twice.
pub proof fn law_icon_fields(v: Icon, es: Seq<(u8, Seq<PValue>)>)
    ensures
        crate::transform::spec_fold::<Icon>(v, es) matches Some(r) ==> {
            &&& crate::params::key_index(es, 2) < 0 ==> r.custom_icon == v.custom_icon
            &&& crate::params::distinct_keys(es) && crate::params::key_index(es, 2) >= 0 ==> r.custom_icon == spec_option::<ImageRange>(v.custom_icon, es[crate::params::key_index(es, 2)].1).unwrap()
            &&& crate::params::key_index(es, 3) < 0 ==> r.position1 == v.position1
            &&& crate::params::distinct_keys(es) && crate::params::key_index(es, 3) >= 0 ==> r.position1 == spec_option::<Coordinates>(v.position1, es[crate::params::key_index(es, 3)].1).unwrap()
            &&& crate::params::key_index(es, 4) < 0 ==> r.position2 == v.position2
            &&& crate::params::distinct_keys(es) && crate::params::key_index(es, 4) >= 0 ==> r.position2 == spec_option::<Coordinates>(v.position2, es[crate::params::key_index(es, 4)].1).unwrap()
        },
    decreases es.len(),
{
    if es.len() > 0 {
        crate::transform::lemma_fold_last::<Icon>(v, es);
        law_icon_fields(v, es.drop_last());
        let d = es.drop_last();
        assert(crate::params::distinct_keys(es) ==> crate::params::distinct_keys(d));
        assert(es[es.len() - 1] == es.last());
        assert forall|k: u8| es.last().0 != k implies crate::params::key_index(es, k) == crate::params::key_index(d, k) && (crate::params::key_index(d, k) >= 0
            ==> es[crate::params::key_index(d, k)] == d[crate::params::key_index(d, k)]) by {
            crate::params::lemma_key_index_range(d, k);
        }
        assert forall|k: u8| es.last().0 == k && crate::params::distinct_keys(es) implies crate::params::key_index(d, k) < 0 by {
            crate::params::lemma_key_index_range(d, k);
            if crate::params::key_index(d, k) >= 0 {
                assert(es[crate::params::key_index(d, k)].0 == k);
            }
        }
    }
}

/// The parameters of Temperature.
#[derive(Debug, PartialEq, Default)]
pub struct Temperature {
    pub current: Option<TemperatureType>,
    pub today: Option<Today>,
}

impl View for Temperature {
    type V = Temperature;

    open spec fn view(&self) -> Temperature {
        *self
    }
}

impl Transform for Temperature {
    open spec fn spec_blank() -> Temperature {
        Temperature {
            current: None,
            today: None,
        }
    }

    open spec fn spec_apply(v: Temperature, key: u8, vals: Seq<PValue>) -> Option<Temperature> {
        if key == 1 {
            match spec_option::<TemperatureType>(v.current, vals) {
                Some(x) => Some(Temperature {
                    current: x,
                    today: v.today,
                }),
                None => None,
            }
        } else if key == 2 {
            match spec_option::<Today>(v.today, vals) {
                Some(x) => Some(Temperature {
                    current: v.current,
                    today: x,
                }),
                None => None,
            }
        } else {
            Some(v)
        }
    }

    fn blank() -> (r: Self) {
        let r = Temperature {
            current: None,
            today: None,
        };
        r
    }

    fn apply(&mut self, key: u8, vals: &Vec<Param>) -> (r: Result<(), ParseError>) {
        if key == 1 {
            transform_option::<TemperatureType>(&mut self.current, vals)
        } else if key == 2 {
            transform_option::<Today>(&mut self.today, vals)
        } else {
            Ok(())
        }
    }
}

/// Filling a `Temperature` with entries: a field whose key occurs in no entry
/// keeps its value; one whose key occurs holds the value read from the last
/// entry under it, or, for an element field, read into its value from
/// before where no key occurs twice.
pub proof fn law_temperature_fields(v: Temperature, es: Seq<(u8, Seq<PValue>)>)
    ensures
        crate::transform::spec_fold::<Temperature>(v, es) matches Some(r) ==> {
            &&& crate::params::key_index(es, 1) < 0 ==> r.current == v.current
            &&& crate::params::distinct_keys(es) && crate::params::key_index(es, 1) >= 0 ==> r.current == spec_option::<TemperatureType>(v.current, es[crate::params::key_index(es, 1)].1).unwrap()
            &&& crate::params::key_index(es, 2) < 0 ==> r.today == v.today
            &&& crate::params::distinct_keys(es) && crate::params::key_index(es, 2) >= 0 ==> r.today == spec_option::<Today>(v.today, es[crate::params::key_index(es, 2)].1).unwrap()
        },
    decreases es.len(),
{
    if es.len() > 0 {
        crate::transform::lemma_fold_last::<Temperature>(v, es);
        law_temperature_fields(v, es.drop_last());
        let d = es.drop_last();
        assert(crate::params::distinct_keys(es) ==> crate::params::distinct_keys(d));
        assert(es[es.len() - 1] == es.last());
        assert forall|k: u8| es.last().0 != k implies crate::params::key_index(es, k) == crate::params::key_index(d, k) && (crate::params::key_index(d, k) >= 0
            ==> es[crate::params::key_index(d, k)] == d[crate::params::key_index(d, k)]) by {
            crate::params::lemma_key_index_range(d, k);
        }
        assert forall|k: u8| es.last().0 == k && crate::params::distinct_keys(es) implies crate::params::key_index(d, k) < 0 by {
            crate::params::lemma_key_index_range(d, k);
            if crate::params::key_index(d, k) >= 0 {
                assert(es[crate::params::key_index(d, k)].0 == k);
            }
        }
    }
}

/// The parameters of Today.
#[derive(Debug, PartialEq, Default)]
pub struct Today {
    pub separate: Option<TemperatureSeparate>,
    pub one_line: Option<TodayOneLine>,
}

impl View for Today {
    type V = Today;

    open spec fn view(&self) -> Today {
        *self
    }
}

impl Transform for Today {
    open spec fn spec_blank() -> Today {
        Today {
            separate: None,
            one_line: None,
        }
    }

    open spec fn spec_apply(v: Today, key: u8, vals: Seq<PValue>) -> Option<Today> {
        if key == 1 {
            match spec_option::<TemperatureSeparate>(v.separate, vals) {
                Some(x) => Some(Today {
                    separate: x,
                    one_line: v.one_line,
                }),
                None => None,
            }
        } else if key == 2 {
            match spec_option::<TodayOneLine>(v.one_line, vals) {
                Some(x) => Some(Today {
                    separate: v.separate,
                    one_line: x,
                }),
                None => None,
            }
        } else {
            Some(v)
        }
    }

    fn blank() -> (r: Self) {
        let r = Today {
            separate: None,
            one_line: None,
        };
        r
    }

    fn apply(&mut self, key: u8, vals: &Vec<Param>) -> (r: Result<(), ParseError>) {
        if key == 1 {
            transform_option::<TemperatureSeparate>(&mut self.separate, vals)
        } else if key == 2 {
            transform_option::<TodayOneLine>(&mut self.one_line, vals)
        } else {
            Ok(())
        }
    }
}

/// Filling a `Today` with entries: a field whose key occurs in no entry
/// keeps its value; one whose key occurs holds the value read from the last
/// entry under it, or, for an element field, read into its value from
/// before where no key occurs twice.
pub proof fn law_today_fields(v: Today, es: Seq<(u8, Seq<PValue>)>)
    ensures
        crate::transform::spec_fold::<Today>(v, es) matches Some(r) ==> {
            &&& crate::params::key_index(es, 1) < 0 ==> r.separate == v.separate
            &&& crate::params::distinct_keys(es) && crate::params::key_index(es, 1) >= 0 ==> r.separate == spec_option::<TemperatureSeparate>(v.separate, es[crate::params::key_index(es, 1)].1).unwrap()
            &&& crate::params::key_index(es, 2) < 0 ==> r.one_line == v.one_line
            &&& crate::params::distinct_keys(es) && crate::params::key_index(es, 2) >= 0 ==> r.one_line == spec_option::<TodayOneLine>(v.one_line, es[crate::params::key_index(es, 2)].1).unwrap()
        },
    decreases es.len(),
{
    if es.len() > 0 {
        crate::transform::lemma_fold_last::<Today>(v, es);
        law_today_fields(v, es.drop_last());
        let d = es.drop_last();
        assert(crate::params::distinct_keys(es) ==> crate::params::distinct_keys(d));
        assert(es[es.len() - 1] == es.last());
        assert forall|k: u8| es.last().0 != k implies crate::params::key_index(es, k) == crate::params::key_index(d, k) && (crate::params::key_index(d, k) >= 0
            ==> es[crate::params::key_index(d, k)] == d[crate::params::key_index(d, k)]) by {
            crate::params::lemma_key_index_range(d, k);
        }
        assert forall|k: u8| es.last().0 == k && crate::params::distinct_keys(es) implies crate::params::key_index(d, k) < 0 by {
            crate::params::lemma_key_index_range(d, k);
            if crate::params::key_index(d, k) >= 0 {
                assert(es[crate::params::key_index(d, k)].0 == k);
            }
        }
    }
}

/// The parameters of TemperatureSeparate.
#[derive(Debug, PartialEq, Default)]
pub struct TemperatureSeparate {
    pub day: Option<TemperatureType>,
    pub night: Option<TemperatureType>,
}

impl View for TemperatureSeparate {
    type V = TemperatureSeparate;

    open spec fn view(&self) -> TemperatureSeparate {
        *self
    }
}

impl Transform for TemperatureSeparate {
    open spec fn spec_blank() -> TemperatureSeparate {
        TemperatureSeparate {
            day: None,
            night: None,
        }
    }

    open spec fn spec_apply(v: TemperatureSeparate, key: u8, vals: Seq<PValue>) -> Option<TemperatureSeparate> {
        if key == 1 {
            match spec_option::<TemperatureType>(v.day, vals) {
                Some(x) => Some(TemperatureSeparate {
                    day: x,
                    night: v.night,
                }),
                None => None,
            }
        } else if key == 2 {
            match spec_option::<TemperatureType>(v.night, vals) {
                Some(x) => Some(TemperatureSeparate {
                    day: v.day,
                    night: x,
                }),
                None => None,
            }
        } else {
            Some(v)
        }
    }

    fn blank() -> (r: Self) {
        let r = TemperatureSeparate {
            day: None,
            night: None,
        };
        r
    }

    fn apply(&mut self, key: u8, vals: &Vec<Param>) -> (r: Result<(), ParseError>) {
        if key == 1 {
            transform_option::<TemperatureType>(&mut self.day, vals)
        } else if key == 2 {
            transform_option::<TemperatureType>(&mut self.night, vals)
        } else {
            Ok(())
        }
    }
}

/// Filling a `TemperatureSeparate` with entries: a field whose key occurs in no entry
/// keeps its value; one whose key occurs holds the value read from the last
/// entry under it, or, for an element field, read into its value from
/// before where no key occurs twice.
pub proof fn law_temperature_separate_fields(v: TemperatureSeparate, es: Seq<(u8, Seq<PValue>)>)
    ensures
        crate::transform::spec_fold::<TemperatureSeparate>(v, es) matches Some(r) ==> {
            &&& crate::params::key_index(es, 1) < 0 ==> r.day == v.day
            &&& crate::params::distinct_keys(es) && crate::params::key_index(es, 1) >= 0 ==> r.day == spec_option::<TemperatureType>(v.day, es[crate::params::key_index(es, 1)].1).unwrap()
            &&& crate::params::key_index(es, 2) < 0 ==> r.night == v.night
            &&& crate::params::distinct_keys(es) && crate::params::key_index(es, 2) >= 0 ==> r.night == spec_option::<TemperatureType>(v.night, es[crate::params::key_index(es, 2)].1).unwrap()
        },
    decreases es.len(),
{
    if es.len() > 0 {
        crate::transform::lemma_fold_last::<TemperatureSeparate>(v, es);
        law_temperature_separate_fields(v, es.drop_last());
        let d = es.drop_last();
        assert(crate::params::distinct_keys(es) ==> crate::params::distinct_keys(d));
        assert(es[es.len() - 1] == es.last());
        assert forall|k: u8| es.last().0 != k implies crate::params::key_index(es, k) == crate::params::key_index(d, k) && (crate::params::key_index(d, k) >= 0
            ==> es[crate::params::key_index(d, k)] == d[crate::params::key_index(d, k)]) by {
            crate::params::lemma_key_index_range(d, k);
        }
        assert forall|k: u8| es.last().0 == k && crate::params::distinct_keys(es) implies crate::params::key_index(d, k) < 0 by {
            crate::params::lemma_key_index_range(d, k);
            if crate::params::key_index(d, k) >= 0 {
                assert(es[crate::params::key_index(d, k)].0 == k);
            }
        }
    }
}

/// The parameters of TodayOneLine.
#[derive(Debug, PartialEq, Default)]
pub struct TodayOneLine {
    pub number: Option<NumberInRect>,
    pub minus_image_index: Option<ImgId>,
    pub delimiter_image_index: Option<ImgId>,
    pub append_suffix_to_all: Option<bool>,
    pub suffix_image_index: Option<ImgId>,
}

impl View for TodayOneLine {
    type V = TodayOneLine;

    open spec fn view(&self) -> TodayOneLine {
        *self
    }
}

impl Transform for TodayOneLine {
    open spec fn spec_blank() -> TodayOneLine {
        TodayOneLine {
            number: None,
            minus_image_index: None,
            delimiter_image_index: None,
            append_suffix_to_all: None,
            suffix_image_index: None,
        }
    }

    open spec fn spec_apply(v: TodayOneLine, key: u8, vals: Seq<PValue>) -> Option<TodayOneLine> {
        if key == 1 {
            match spec_option::<NumberInRect>(v.number, vals) {
                Some(x) => Some(TodayOneLine {
                    number: x,
                    minus_image_index: v.minus_image_index,
                    delimiter_image_index: v.delimiter_image_index,
                    append_suffix_to_all: v.append_suffix_to_all,
                    suffix_image_index: v.suffix_image_index,
                }),
                None => None,
            }
        } else if key == 2 {
            match spec_img_id_field(vals) {
                Some(x) => Some(TodayOneLine {
                    number: v.number,
                    minus_image_index: x,
                    delimiter_image_index: v.delimiter_image_index,
                    append_suffix_to_all: v.append_suffix_to_all,
                    suffix_image_index: v.suffix_image_index,
                }),
                None => None,
            }
        } else if key == 3 {
            match spec_img_id_field(vals) {
                Some(x) => Some(TodayOneLine {
                    number: v.number,
                    minus_image_index: v.minus_image_index,
                    delimiter_image_index: x,
                    append_suffix_to_all: v.append_suffix_to_all,
                    suffix_image_index: v.suffix_image_index,
                }),
                None => None,
            }
        } else if key == 4 {
            match spec_bool_field(vals) {
                Some(x) => Some(TodayOneLine {
                    number: v.number,
                    minus_image_index: v.minus_image_index,
                    delimiter_image_index: v.delimiter_image_index,
                    append_suffix_to_all: x,
                    suffix_image_index: v.suffix_image_index,
                }),
                None => None,
            }
        } else if key == 5 {
            match spec_img_id_field(vals) {
                Some(x) => Some(TodayOneLine {
                    number: v.number,
                    minus_image_index: v.minus_image_index,
                    delimiter_image_index: v.delimiter_image_index,
                    append_suffix_to_all: v.append_suffix_to_all,
                    suffix_image_index: x,
                }),
                None => None,
            }
        } else {
            Some(v)
        }
    }

    fn blank() -> (r: Self) {
        let r = TodayOneLine {
            number: None,
            minus_image_index: None,
            delimiter_image_index: None,
            append_suffix_to_all: None,
            suffix_image_index: None,
        };
        r
    }

    fn apply(&mut self, key: u8, vals: &Vec<Param>) -> (r: Result<(), ParseError>) {
        if key == 1 {
            transform_option::<NumberInRect>(&mut self.number, vals)
        } else if key == 2 {
            transform_img_id(&mut self.minus_image_index, vals)
        } else if key == 3 {
            transform_img_id(&mut self.delimiter_image_index, vals)
        } else if key == 4 {
            transform_bool(&mut self.append_suffix_to_all, vals)
        } else if key == 5 {
            transform_img_id(&mut self.suffix_image_index, vals)
        } else {
            Ok(())
        }
    }
}

/// Filling a `TodayOneLine` with entries: a field whose key occurs in no entry
/// keeps its value; one whose key occurs holds the value read from the last
/// entry under it, or, for an element field, read into its value from
/// before where no key occurs twice.
pub proof fn law_today_one_line_fields(v: TodayOneLine, es: Seq<(u8, Seq<PValue>)>)
    ensures
        crate::transform::spec_fold::<TodayOneLine>(v, es) matches Some(r) ==> {
            &&& crate::params::key_index(es, 1) < 0 ==> r.number == v.number
            &&& crate::params::distinct_keys(es) && crate::params::key_index(es, 1) >= 0 ==> r.number == spec_option::<NumberInRect>(v.number, es[crate::params::key_index(es, 1)].1).unwrap()
            &&& crate::params::key_index(es, 2) < 0 ==> r.minus_image_index == v.minus_image_index
            &&& crate::params::key_index(es, 2) >= 0 ==> r.minus_image_index == spec_img_id_field(es[crate::params::key_index(es, 2)].1).unwrap()
            &&& crate::params::key_index(es, 3) < 0 ==> r.delimiter_image_index == v.delimiter_image_index
            &&& crate::params::key_index(es, 3) >= 0 ==> r.delimiter_image_index == spec_img_id_field(es[crate::params::key_index(es, 3)].1).unwrap()
            &&& crate::params::key_index(es, 4) < 0 ==> r.append_suffix_to_all == v.append_suffix_to_all
            &&& crate::params::key_index(es, 4) >= 0 ==> r.append_suffix_to_all == spec_bool_field(es[crate::params::key_index(es, 4)].1).unwrap()
            &&& crate::params::key_index(es, 5) < 0 ==> r.suffix_image_index == v.suffix_image_index
            &&& crate::params::key_index(es, 5) >= 0 ==> r.suffix_image_index == spec_img_id_field(es[crate::params::key_index(es, 5)].1).unwrap()
        },
    decreases es.len(),
{
    if es.len() > 0 {
        crate::transform::lemma_fold_last::<TodayOneLine>(v, es);
        law_today_one_line_fields(v, es.drop_last());
        let d = es.drop_last();
        assert(crate::params::distinct_keys(es) ==> crate::params::distinct_keys(d));
        assert(es[es.len() - 1] == es.last());
        assert forall|k: u8| es.last().0 != k implies crate::params::key_index(es, k) == crate::params::key_index(d, k) && (crate::params::key_index(d, k) >= 0
            ==> es[crate::params::key_index(d, k)] == d[crate::params::key_index(d, k)]) by {
            crate::params::lemma_key_index_range(d, k);
        }
        assert forall|k: u8| es.last().0 == k && crate::params::distinct_keys(es) implies crate::params::key_index(d, k) < 0 by {
            crate::params::lemma_key_index_range(d, k);
            if crate::params::key_index(d, k) >= 0 {
                assert(es[crate::params::key_index(d, k)].0 == k);
            }
        }
    }
}

/// The parameters of AirQuality.
#[derive(Debug, PartialEq, Default)]
pub struct AirQuality {
    pub index: Option<NumberInRect>,
    pub icon: Option<ImageRange>,
}

impl View for AirQuality {
    type V = AirQuality;

    open spec fn view(&self) -> AirQuality {
        *self
    }
}

impl Transform for AirQuality {
    open spec fn spec_blank() -> AirQuality {
        AirQuality {
            index: None,
            icon: None,
        }
    }

    open spec fn spec_apply(v: AirQuality, key: u8, vals: Seq<PValue>) -> Option<AirQuality> {
        if key == 1 {
            match spec_option::<NumberInRect>(v.index, vals) {
                Some(x) => Some(AirQuality {
                    index: x,
                    icon: v.icon,
                }),
                None => None,
            }
        } else if key == 2 {
            match spec_option::<ImageRange>(v.icon, vals) {
                Some(x) => Some(AirQuality {
                    index: v.index,
                    icon: x,
                }),
                None => None,
            }
        } else {
            Some(v)
        }
    }

    fn blank() -> (r: Self) {
        let r = AirQuality {
            index: None,
            icon: None,
        };
        r
    }

    fn apply(&mut self, key: u8, vals: &Vec<Param>) -> (r: Result<(), ParseError>) {
        if key == 1 {
            transform_option::<NumberInRect>(&mut self.index, vals)
        } else if key == 2 {
            transform_option::<ImageRange>(&mut self.icon, vals)
        } else {
            Ok(())
        }
    }
}

/// Filling a `AirQuality` with entries: a field whose key occurs in no entry
/// keeps its value; one whose key occurs holds the value read from the last
/// entry under it, or, for an element field, read into its value from
/// before where no key occurs twice.
pub proof fn law_air_quality_fields(v: AirQuality, es: Seq<(u8, Seq<PValue>)>)
    ensures
        crate::transform::spec_fold::<AirQuality>(v, es) matches Some(r) ==> {
            &&& crate::params::key_index(es, 1) < 0 ==> r.index == v.index
            &&& crate::params::distinct_keys(es) && crate::params::key_index(es, 1) >= 0 ==> r.index == spec_option::<NumberInRect>(v.index, es[crate::params::key_index(es, 1)].1).unwrap()
            &&& crate::params::key_index(es, 2) < 0 ==> r.icon == v.icon
            &&& crate::params::distinct_keys(es) && crate::params::key_index(es, 2) >= 0 ==> r.icon == spec_option::<ImageRange>(v.icon, es[crate::params::key_index(es, 2)].1).unwrap()
        },
    decreases es.len(),
{
    if es.len() > 0 {
        crate::transform::lemma_fold_last::<AirQuality>(v, es);
        law_air_quality_fields(v, es.drop_last());
        let d = es.drop_last();
        assert(crate::params::distinct_keys(es) ==> crate::params::distinct_keys(d));
        assert(es[es.len() - 1] == es.last());
        assert forall|k: u8| es.last().0 != k implies crate::params::key_index(es, k) == crate::params::key_index(d, k) && (crate::params::key_index(d, k) >= 0
            ==> es[crate::params::key_index(d, k)] == d[crate::params::key_index(d, k)]) by {
            crate::params::lemma_key_index_range(d, k);
        }
        assert forall|k: u8| es.last().0 == k && crate::params::distinct_keys(es) implies crate::params::key_index(d, k) < 0 by {
            crate::params::lemma_key_index_range(d, k);
            if crate::params::key_index(d, k) >= 0 {
                assert(es[crate::params::key_index(d, k)].0 == k);
            }
        }
    }
}

/// The parameters of Humidity.
#[derive(Debug, PartialEq, Default)]
pub struct Humidity {
    pub number: Option<NumberInRect>,
    pub suffix_image_index: Option<ImgId>,
    pub image_pos_suffix: Option<ImageReference>,
}

impl View for Humidity {
    type V = Humidity;

    open spec fn view(&self) -> Humidity {
        *self
    }
}

impl Transform for Humidity {
    open spec fn spec_blank() -> Humidity {
        Humidity {
            number: None,
            suffix_image_index: None,
            image_pos_suffix: None,
        }
    }

    open spec fn spec_apply(v: Humidity, key: u8, vals: Seq<PValue>) -> Option<Humidity> {
        if key == 1 {
            match spec_option::<NumberInRect>(v.number, vals) {
                Some(x) => Some(Humidity {
                    number: x,
                    suffix_image_index: v.suffix_image_index,
                    image_pos_suffix: v.image_pos_suffix,
                }),
                None => None,
            }
        } else if key == 2 {
            match spec_img_id_field(vals) {
                Some(x) => Some(Humidity {
                    number: v.number,
                    suffix_image_index: x,
                    image_pos_suffix: v.image_pos_suffix,
                }),
                None => None,
            }
        } else if key == 3 {
            match spec_option::<ImageReference>(v.image_pos_suffix, vals) {
                Some(x) => Some(Humidity {
                    number: v.number,
                    suffix_image_index: v.suffix_image_index,
                    image_pos_suffix: x,
                }),
                None => None,
            }
        } else {
            Some(v)
        }
    }

    fn blank() -> (r: Self) {
        let r = Humidity {
            number: None,
            suffix_image_index: None,
            image_pos_suffix: None,
        };
        r
    }

    fn apply(&mut self, key: u8, vals: &Vec<Param>) -> (r: Result<(), ParseError>) {
        if key == 1 {
            transform_option::<NumberInRect>(&mut self.number, vals)
        } else if key == 2 {
            transform_img_id(&mut self.suffix_image_index, vals)
        } else if key == 3 {
            transform_option::<ImageReference>(&mut self.image_pos_suffix, vals)
        } else {
            Ok(())
        }
    }
}

/// Filling a `Humidity` with entries: a field whose key occurs in no entry
/// keeps its value; one whose key occurs holds the value read from the last
/// entry under it, or, for an element field, read into its value from
/// before where no key occurs twice.
pub proof fn law_humidity_fields(v: Humidity, es: Seq<(u8, Seq<PValue>)>)
    ensures
        crate::transform::spec_fold::<Humidity>(v, es) matches Some(r) ==> {
            &&& crate::params::key_index(es, 1) < 0 ==> r.number == v.number
            &&& crate::params::distinct_keys(es) && crate::params::key_index(es, 1) >= 0 ==> r.number == spec_option::<NumberInRect>(v.number, es[crate::params::key_index(es, 1)].1).unwrap()
            &&& crate::params::key_index(es, 2) < 0 ==> r.suffix_image_index == v.suffix_image_index
            &&& crate::params::key_index(es, 2) >= 0 ==> r.suffix_image_index == spec_img_id_field(es[crate::params::key_index(es, 2)].1).unwrap()
            &&& crate::params::key_index(es, 3) < 0 ==> r.image_pos_suffix == v.image_pos_suffix
            &&& crate::params::distinct_keys(es) && crate::params::key_index(es, 3) >= 0 ==> r.image_pos_suffix == spec_option::<ImageReference>(v.image_pos_suffix, es[crate::params::key_index(es, 3)].1).unwrap()
        },
    decreases es.len(),
{
    if es.len() > 0 {
        crate::transform::lemma_fold_last::<Humidity>(v, es);
        law_humidity_fields(v, es.drop_last());
        let d = es.drop_last();
        assert(crate::params::distinct_keys(es) ==> crate::params::distinct_keys(d));
        assert(es[es.len() - 1] == es.last());
        assert forall|k: u8| es.last().0 != k implies crate::params::key_index(es, k) == crate::params::key_index(d, k) && (crate::params::key_index(d, k) >= 0
            ==> es[crate::params::key_index(d, k)] == d[crate::params::key_index(d, k)]) by {
            crate::params::lemma_key_index_range(d, k);
        }
        assert forall|k: u8| es.last().0 == k && crate::params::distinct_keys(es) implies crate::params::key_index(d, k) < 0 by {
            crate::params::lemma_key_index_range(d, k);
            if crate::params::key_index(d, k) >= 0 {
                assert(es[crate::params::key_index(d, k)].0 == k);
            }
        }
    }
}

/// The parameters of Wind.
#[derive(Debug, PartialEq, Default)]
pub struct Wind {
    pub number: Option<NumberInRect>,
    pub suffix_image_index_en: Option<ImgId>,
    pub suffix_image_index_cn: Option<ImgId>,
    pub suffix_image_index_cn2: Option<ImgId>,
    pub image_pos_suffix_en: Option<ImageReference>,
    pub image_pos_suffix_cn: Option<ImageReference>,
    pub image_pos_suffix_cn2: Option<ImageReference>,
}

impl View for Wind {
    type V = Wind;

    open spec fn view(&self) -> Wind {
        *self
    }
}

impl Transform for Wind {
    open spec fn spec_blank() -> Wind {
        Wind {
            number: None,
            suffix_image_index_en: None,
            suffix_image_index_cn: None,
            suffix_image_index_cn2: None,
            image_pos_suffix_en: None,
            image_pos_suffix_cn: None,
            image_pos_suffix_cn2: None,
        }
    }

    open spec fn spec_apply(v: Wind, key: u8, vals: Seq<PValue>) -> Option<Wind> {
        if key == 1 {
            match spec_option::<NumberInRect>(v.number, vals) {
                Some(x) => Some(Wind {
                    number: x,
                    suffix_image_index_en: v.suffix_image_index_en,
                    suffix_image_index_cn: v.suffix_image_index_cn,
                    suffix_image_index_cn2: v.suffix_image_index_cn2,
                    image_pos_suffix_en: v.image_pos_suffix_en,
                    image_pos_suffix_cn: v.image_pos_suffix_cn,
                    image_pos_suffix_cn2: v.image_pos_suffix_cn2,
                }),
                None => None,
            }
        } else if key == 2 {
            match spec_img_id_field(vals) {
                Some(x) => Some(Wind {
                    number: v.number,
                    suffix_image_index_en: x,
                    suffix_image_index_cn: v.suffix_image_index_cn,
                    suffix_image_index_cn2: v.suffix_image_index_cn2,
                    image_pos_suffix_en: v.image_pos_suffix_en,
                    image_pos_suffix_cn: v.image_pos_suffix_cn,
                    image_pos_suffix_cn2: v.image_pos_suffix_cn2,
                }),
                None => None,
            }
        } else if key == 3 {
            match spec_img_id_field(vals) {
                Some(x) => Some(Wind {
                    number: v.number,
                    suffix_image_index_en: v.suffix_image_index_en,
                    suffix_image_index_cn: x,
                    suffix_image_index_cn2: v.suffix_image_index_cn2,
                    image_pos_suffix_en: v.image_pos_suffix_en,
                    image_pos_suffix_cn: v.image_pos_suffix_cn,
                    image_pos_suffix_cn2: v.image_pos_suffix_cn2,
                }),
                None => None,
            }
        } else if key == 4 {
            match spec_img_id_field(vals) {
                Some(x) => Some(Wind {
                    number: v.number,
                    suffix_image_index_en: v.suffix_image_index_en,
                    suffix_image_index_cn: v.suffix_image_index_cn,
                    suffix_image_index_cn2: x,
                    image_pos_suffix_en: v.image_pos_suffix_en,
                    image_pos_suffix_cn: v.image_pos_suffix_cn,
                    image_pos_suffix_cn2: v.image_pos_suffix_cn2,
                }),
                None => None,
            }
        } else if key == 5 {
            match spec_option::<ImageReference>(v.image_pos_suffix_en, vals) {
                Some(x) => Some(Wind {
                    number: v.number,
                    suffix_image_index_en: v.suffix_image_index_en,
                    suffix_image_index_cn: v.suffix_image_index_cn,
                    suffix_image_index_cn2: v.suffix_image_index_cn2,
                    image_pos_suffix_en: x,
                    image_pos_suffix_cn: v.image_pos_suffix_cn,
                    image_pos_suffix_cn2: v.image_pos_suffix_cn2,
                }),
                None => None,
            }
        } else if key == 6 {
            match spec_option::<ImageReference>(v.image_pos_suffix_cn, vals) {
                Some(x) => Some(Wind {
                    number: v.number,
                    suffix_image_index_en: v.suffix_image_index_en,
                    suffix_image_index_cn: v.suffix_image_index_cn,
                    suffix_image_index_cn2: v.suffix_image_index_cn2,
                    image_pos_suffix_en: v.image_pos_suffix_en,
                    image_pos_suffix_cn: x,
                    image_pos_suffix_cn2: v.image_pos_suffix_cn2,
                }),
                None => None,
            }
        } else if key == 7 {
            match spec_option::<ImageReference>(v.image_pos_suffix_cn2, vals) {
                Some(x) => Some(Wind {
                    number: v.number,
                    suffix_image_index_en: v.suffix_image_index_en,
                    suffix_image_index_cn: v.suffix_image_index_cn,
                    suffix_image_index_cn2: v.suffix_image_index_cn2,
                    image_pos_suffix_en: v.image_pos_suffix_en,
                    image_pos_suffix_cn: v.image_pos_suffix_cn,
                    image_pos_suffix_cn2: x,
                }),
                None => None,
            }
        } else {
            Some(v)
        }
    }

    fn blank() -> (r: Self) {
        let r = Wind {
            number: None,
            suffix_image_index_en: None,
            suffix_image_index_cn: None,
            suffix_image_index_cn2: None,
            image_pos_suffix_en: None,
            image_pos_suffix_cn: None,
            image_pos_suffix_cn2: None,
        };
        r
    }

    fn apply(&mut self, key: u8, vals: &Vec<Param>) -> (r: Result<(), ParseError>) {
        if key == 1 {
            transform_option::<NumberInRect>(&mut self.number, vals)
        } else if key == 2 {
            transform_img_id(&mut self.suffix_image_index_en, vals)
        } else if key == 3 {
            transform_img_id(&mut self.suffix_image_index_cn, vals)
        } else if key == 4 {
            transform_img_id(&mut self.suffix_image_index_cn2, vals)
        } else if key == 5 {
            transform_option::<ImageReference>(&mut self.image_pos_suffix_en, vals)
        } else if key == 6 {
            transform_option::<ImageReference>(&mut self.image_pos_suffix_cn, vals)
        } else if key == 7 {
            transform_option::<ImageReference>(&mut self.image_pos_suffix_cn2, vals)
        } else {
            Ok(())
        }
    }
}

/// Filling a `Wind` with entries: a field whose key occurs in no entry
/// keeps its value; one whose key occurs holds the value read from the last
/// entry under it, or, for an element field, read into its value from
/// before where no key occurs twice.
pub proof fn law_wind_fields(v: Wind, es: Seq<(u8, Seq<PValue>)>)
    ensures
        crate::transform::spec_fold::<Wind>(v, es) matches Some(r) ==> {
            &&& crate::params::key_index(es, 1) < 0 ==> r.number == v.number
            &&& crate::params::distinct_keys(es) && crate::params::key_index(es, 1) >= 0 ==> r.number == spec_option::<NumberInRect>(v.number, es[crate::params::key_index(es, 1)].1).unwrap()
            &&& crate::params::key_index(es, 2) < 0 ==> r.suffix_image_index_en == v.suffix_image_index_en
            &&& crate::params::key_index(es, 2) >= 0 ==> r.suffix_image_index_en == spec_img_id_field(es[crate::params::key_index(es, 2)].1).unwrap()
            &&& crate::params::key_index(es, 3) < 0 ==> r.suffix_image_index_cn == v.suffix_image_index_cn
            &&& crate::params::key_index(es, 3) >= 0 ==> r.suffix_image_index_cn == spec_img_id_field(es[crate::params::key_index(es, 3)].1).unwrap()
            &&& crate::params::key_index(es, 4) < 0 ==> r.suffix_image_index_cn2 == v.suffix_image_index_cn2
            &&& crate::params::key_index(es, 4) >= 0 ==> r.suffix_image_index_cn2 == spec_img_id_field(es[crate::params::key_index(es, 4)].1).unwrap()
            &&& crate::params::key_index(es, 5) < 0 ==> r.image_pos_suffix_en == v.image_pos_suffix_en
            &&& crate::params::distinct_keys(es) && crate::params::key_index(es, 5) >= 0 ==> r.image_pos_suffix_en == spec_option::<ImageReference>(v.image_pos_suffix_en, es[crate::params::key_index(es, 5)].1).unwrap()
            &&& crate::params::key_index(es, 6) < 0 ==> r.image_pos_suffix_cn == v.image_pos_suffix_cn
            &&& crate::params::distinct_keys(es) && crate::params::key_index(es, 6) >= 0 ==> r.image_pos_suffix_cn == spec_option::<ImageReference>(v.image_pos_suffix_cn, es[crate::params::key_index(es, 6)].1).unwrap()
            &&& crate::params::key_index(es, 7) < 0 ==> r.image_pos_suffix_cn2 == v.image_pos_suffix_cn2
            &&& crate::params::distinct_keys(es) && crate::params::key_index(es, 7) >= 0 ==> r.image_pos_suffix_cn2 == spec_option::<ImageReference>(v.image_pos_suffix_cn2, es[crate::params::key_index(es, 7)].1).unwrap()
        },
    decreases es.len(),
{
    if es.len() > 0 {
        crate::transform::lemma_fold_last::<Wind>(v, es);
        law_wind_fields(v, es.drop_last());
        let d = es.drop_last();
        assert(crate::params::distinct_keys(es) ==> crate::params::distinct_keys(d));
        assert(es[es.len() - 1] == es.last());
        assert forall|k: u8| es.last().0 != k implies crate::params::key_index(es, k) == crate::params::key_index(d, k) && (crate::params::key_index(d, k) >= 0
            ==> es[crate::params::key_index(d, k)] == d[crate::params::key_index(d, k)]) by {
            crate::params::lemma_key_index_range(d, k);
        }
        assert forall|k: u8| es.last().0 == k && crate::params::distinct_keys(es) implies crate::params::key_index(d, k) < 0 by {
            crate::params::lemma_key_index_range(d, k);
            if crate::params::key_index(d, k) >= 0 {
                assert(es[crate::params::key_index(d, k)].0 == k);
            }
        }
    }
}

/// The parameters of UVIndex.
#[derive(Debug, PartialEq, Default)]
pub struct UVIndex {
    pub uv: Option<UV>,
    pub uvcn: Option<ImageRange>,
    pub uvcn2: Option<ImageRange>,
}

impl View for UVIndex {
    type V = UVIndex;

    open spec fn view(&self) -> UVIndex {
        *self
    }
}

impl Transform for UVIndex {
    open spec fn spec_blank() -> UVIndex {
        UVIndex {
            uv: None,
            uvcn: None,
            uvcn2: None,
        }
    }

    open spec fn spec_apply(v: UVIndex, key: u8, vals: Seq<PValue>) -> Option<UVIndex> {
        if key == 1 {
            match spec_option::<UV>(v.uv, vals) {
                Some(x) => Some(UVIndex {
                    uv: x,
                    uvcn: v.uvcn,
                    uvcn2: v.uvcn2,
                }),
                None => None,
            }
        } else if key == 2 {
            match spec_option::<ImageRange>(v.uvcn, vals) {
                Some(x) => Some(UVIndex {
                    uv: v.uv,
                    uvcn: x,
                    uvcn2: v.uvcn2,
                }),
                None => None,
            }
        } else if key == 3 {
            match spec_option::<ImageRange>(v.uvcn2, vals) {
                Some(x) => Some(UVIndex {
                    uv: v.uv,
                    uvcn: v.uvcn,
                    uvcn2: x,
                }),
                None => None,
            }
        } else {
            Some(v)
        }
    }

    fn blank() -> (r: Self) {
        let r = UVIndex {
            uv: None,
            uvcn: None,
            uvcn2: None,
        };
        r
    }

    fn apply(&mut self, key: u8, vals: &Vec<Param>) -> (r: Result<(), ParseError>) {
        if key == 1 {
            transform_option::<UV>(&mut self.uv, vals)
        } else if key == 2 {
            transform_option::<ImageRange>(&mut self.uvcn, vals)
        } else if key == 3 {
            transform_option::<ImageRange>(&mut self.uvcn2, vals)
        } else {
            Ok(())
        }
    }
}

/// Filling a `UVIndex` with entries: a field whose key occurs in no entry
/// keeps its value; one whose key occurs holds the value read from the last
/// entry under it, or, for an element field, read into its value from
/// before where no key occurs twice.
pub proof fn law_uv_index_fields(v: UVIndex, es: Seq<(u8, Seq<PValue>)>)
    ensures
        crate::transform::spec_fold::<UVIndex>(v, es) matches Some(r) ==> {
            &&& crate::params::key_index(es, 1) < 0 ==> r.uv == v.uv
            &&& crate::params::distinct_keys(es) && crate::params::key_index(es, 1) >= 0 ==> r.uv == spec_option::<UV>(v.uv, es[crate::params::key_index(es, 1)].1).unwrap()
            &&& crate::params::key_index(es, 2) < 0 ==> r.uvcn == v.uvcn
            &&& crate::params::distinct_keys(es) && crate::params::key_index(es, 2) >= 0 ==> r.uvcn == spec_option::<ImageRange>(v.uvcn, es[crate::params::key_index(es, 2)].1).unwrap()
            &&& crate::params::key_index(es, 3) < 0 ==> r.uvcn2 == v.uvcn2
            &&& crate::params::distinct_keys(es) && crate::params::key_index(es, 3) >= 0 ==> r.uvcn2 == spec_option::<ImageRange>(v.uvcn2, es[crate::params::key_index(es, 3)].1).unwrap()
        },
    decreases es.len(),
{
    if es.len() > 0 {
        crate::transform::lemma_fold_last::<UVIndex>(v, es);
        law_uv_index_fields(v, es.drop_last());
        let d = es.drop_last();
        assert(crate::params::distinct_keys(es) ==> crate::params::distinct_keys(d));
        assert(es[es.len() - 1] == es.last());
        assert forall|k: u8| es.last().0 != k implies crate::params::key_index(es, k) == crate::params::key_index(d, k) && (crate::params::key_index(d, k) >= 0
            ==> es[crate::params::key_index(d, k)] == d[crate::params::key_index(d, k)]) by {
            crate::params::lemma_key_index_range(d, k);
        }
        assert forall|k: u8| es.last().0 == k && crate::params::distinct_keys(es) implies crate::params::key_index(d, k) < 0 by {
            crate::params::lemma_key_index_range(d, k);
            if crate::params::key_index(d, k) >= 0 {
                assert(es[crate::params::key_index(d, k)].0 == k);
            }
        }
    }
}

/// The parameters of UV.
#[derive(Debug, PartialEq, Default)]
pub struct UV {
    pub number: Option<NumberInRect>,
    pub suffix_image_index: Option<ImgId>,
}

impl View for UV {
    type V = UV;

    open spec fn view(&self) -> UV {
        *self
    }
}

impl Transform for UV {
    open spec fn spec_blank() -> UV {
        UV {
            number: None,
            suffix_image_index: None,
        }
    }

    open spec fn spec_apply(v: UV, key: u8, vals: Seq<PValue>) -> Option<UV> {
        if key == 1 {
            match spec_option::<NumberInRect>(v.number, vals) {
                Some(x) => Some(UV {
                    number: x,
                    suffix_image_index: v.suffix_image_index,
                }),
                None => None,
            }
        } else if key == 2 {
            match spec_img_id_field(vals) {
                Some(x) => Some(UV {
                    number: v.number,
                    suffix_image_index: x,
                }),
                None => None,
            }
        } else {
            Some(v)
        }
    }

    fn blank() -> (r: Self) {
        let r = UV {
            number: None,
            suffix_image_index: None,
        };
        r
    }

    fn apply(&mut self, key: u8, vals: &Vec<Param>) -> (r: Result<(), ParseError>) {
        if key == 1 {
            transform_option::<NumberInRect>(&mut self.number, vals)
        } else if key == 2 {
            transform_img_id(&mut self.suffix_image_index, vals)
        } else {
            Ok(())
        }
    }
}

/// Filling a `UV` with entries: a field whose key occurs in no entry
/// keeps its value; one whose key occurs holds the value read from the last
/// entry under it, or, for an element field, read into its value from
/// before where no key occurs twice.
pub proof fn law_uv_fields(v: UV, es: Seq<(u8, Seq<PValue>)>)
    ensures
        crate::transform::spec_fold::<UV>(v, es) matches Some(r) ==> {
            &&& crate::params::key_index(es, 1) < 0 ==> r.number == v.number
            &&& crate::params::distinct_keys(es) && crate::params::key_index(es, 1) >= 0 ==> r.number == spec_option::<NumberInRect>(v.number, es[crate::params::key_index(es, 1)].1).unwrap()
            &&& crate::params::key_index(es, 2) < 0 ==> r.suffix_image_index == v.suffix_image_index
            &&& crate::params::key_index(es, 2) >= 0 ==> r.suffix_image_index == spec_img_id_field(es[crate::params::key_index(es, 2)].1).unwrap()
        },
    decreases es.len(),
{
    if es.len() > 0 {
        crate::transform::lemma_fold_last::<UV>(v, es);
        law_uv_fields(v, es.drop_last());
        let d = es.drop_last();
        assert(crate::params::distinct_keys(es) ==> crate::params::distinct_keys(d));
        assert(es[es.len() - 1] == es.last());
        assert forall|k: u8| es.last().0 != k implies crate::params::key_index(es, k) == crate::params::key_index(d, k) && (crate::params::key_index(d, k) >= 0
            ==> es[crate::params::key_index(d, k)] == d[crate::params::key_index(d, k)]) by {
            crate::params::lemma_key_index_range(d, k);
        }
        assert forall|k: u8| es.last().0 == k && crate::params::distinct_keys(es) implies crate::params::key_index(d, k) < 0 by {
            crate::params::lemma_key_index_range(d, k);
            if crate::params::key_index(d, k) >= 0 {
                assert(es[crate::params::key_index(d, k)].0 == k);
            }
        }
    }
}

/// The parameters of StepsProgress.
#[derive(Debug, PartialEq, Default)]
pub struct StepsProgress {
    pub goal_image: Option<ImageReference>,
    pub line_scale: Option<ImageRange>,
    pub linear: Option<Linear>,
    pub circle_scale: Option<CircleScale>,
}

/// The mathematical value of a `StepsProgress`.
pub struct StepsProgressView {
    pub goal_image: Option<ImageReference>,
    pub line_scale: Option<ImageRange>,
    pub linear: Option<LinearView>,
    pub circle_scale: Option<CircleScale>,
}

impl View for StepsProgress {
    type V = StepsProgressView;

    open spec fn view(&self) -> StepsProgressView {
        StepsProgressView {
            goal_image: opt_view(self.goal_image),
            line_scale: opt_view(self.line_scale),
            linear: opt_view(self.linear),
            circle_scale: opt_view(self.circle_scale),
        }
    }
}

impl Transform for StepsProgress {
    open spec fn spec_blank() -> StepsProgressView {
        StepsProgressView {
            goal_image: None,
            line_scale: None,
            linear: None,
            circle_scale: None,
        }
    }

    open spec fn spec_apply(v: StepsProgressView, key: u8, vals: Seq<PValue>) -> Option<StepsProgressView> {
        if key == 1 {
            match spec_option::<ImageReference>(v.goal_image, vals) {
                Some(x) => Some(StepsProgressView {
                    goal_image: x,
                    line_scale: v.line_scale,
                    linear: v.linear,
                    circle_scale: v.circle_scale,
                }),
                None => None,
            }
        } else if key == 2 {
            match spec_option::<ImageRange>(v.line_scale, vals) {
                Some(x) => Some(StepsProgressView {
                    goal_image: v.goal_image,
                    line_scale: x,
                    linear: v.linear,
                    circle_scale: v.circle_scale,
                }),
                None => None,
            }
        } else if key == 3 {
            match spec_option::<Linear>(v.linear, vals) {
                Some(x) => Some(StepsProgressView {
                    goal_image: v.goal_image,
                    line_scale: v.line_scale,
                    linear: x,
                    circle_scale: v.circle_scale,
                }),
                None => None,
            }
        } else if key == 4 {
            match spec_option::<CircleScale>(v.circle_scale, vals) {
                Some(x) => Some(StepsProgressView {
                    goal_image: v.goal_image,
                    line_scale: v.line_scale,
                    linear: v.linear,
                    circle_scale: x,
                }),
                None => None,
            }
        } else {
            Some(v)
        }
    }

    fn blank() -> (r: Self) {
        let r = StepsProgress {
            goal_image: None,
            line_scale: None,
            linear: None,
            circle_scale: None,
        };
        r
    }

    fn apply(&mut self, key: u8, vals: &Vec<Param>) -> (r: Result<(), ParseError>) {
        if key == 1 {
            transform_option::<ImageReference>(&mut self.goal_image, vals)
        } else if key == 2 {
            transform_option::<ImageRange>(&mut self.line_scale, vals)
        } else if key == 3 {
            transform_option::<Linear>(&mut self.linear, vals)
        } else if key == 4 {
            transform_option::<CircleScale>(&mut self.circle_scale, vals)
        } else {
            Ok(())
        }
    }
}

/// Filling a `StepsProgress` with entries: a field whose key occurs in no entry
/// keeps its value; one whose key occurs holds the value read from the last
/// entry under it, or, for an element field, read into its value from
/// before where no key occurs twice.
pub proof fn law_steps_progress_fields(v: StepsProgressView, es: Seq<(u8, Seq<PValue>)>)
    ensures
        crate::transform::spec_fold::<StepsProgress>(v, es) matches Some(r) ==> {
            &&& crate::params::key_index(es, 1) < 0 ==> r.goal_image == v.goal_image
            &&& crate::params::distinct_keys(es) && crate::params::key_index(es, 1) >= 0 ==> r.goal_image == spec_option::<ImageReference>(v.goal_image, es[crate::params::key_index(es, 1)].1).unwrap()
            &&& crate::params::key_index(es, 2) < 0 ==> r.line_scale == v.line_scale
            &&& crate::params::distinct_keys(es) && crate::params::key_index(es, 2) >= 0 ==> r.line_scale == spec_option::<ImageRange>(v.line_scale, es[crate::params::key_index(es, 2)].1).unwrap()
            &&& crate::params::key_index(es, 3) < 0 ==> r.linear == v.linear
            &&& crate::params::distinct_keys(es) && crate::params::key_index(es, 3) >= 0 ==> r.linear == spec_option::<Linear>(v.linear, es[crate::params::key_index(es, 3)].1).unwrap()
            &&& crate::params::key_index(es, 4) < 0 ==> r.circle_scale == v.circle_scale
            &&& crate::params::distinct_keys(es) && crate::params::key_index(es, 4) >= 0 ==> r.circle_scale == spec_option::<CircleScale>(v.circle_scale, es[crate::params::key_index(es, 4)].1).unwrap()
        },
    decreases es.len(),
{
    if es.len() > 0 {
        crate::transform::lemma_fold_last::<StepsProgress>(v, es);
        law_steps_progress_fields(v, es.drop_last());
        let d = es.drop_last();
        assert(crate::params::distinct_keys(es) ==> crate::params::distinct_keys(d));
        assert(es[es.len() - 1] == es.last());
        assert forall|k: u8| es.last().0 != k implies crate::params::key_index(es, k) == crate::params::key_index(d, k) && (crate::params::key_index(d, k) >= 0
            ==> es[crate::params::key_index(d, k)] == d[crate::params::key_index(d, k)]) by {
            crate::params::lemma_key_index_range(d, k);
        }
        assert forall|k: u8| es.last().0 == k && crate::params::distinct_keys(es) implies crate::params::key_index(d, k) < 0 by {
            crate::params::lemma_key_index_range(d, k);
            if crate::params::key_index(d, k) >= 0 {
                assert(es[crate::params::key_index(d, k)].0 == k);
            }
        }
    }
}

/// The parameters of Battery.
#[derive(Debug, PartialEq, Default)]
pub struct Battery {
    pub battery_text: Option<BatteryText>,
    pub battery_icon: Option<ImageRange>,
    pub linear: Option<Linear>,
}

/// The mathematical value of a `Battery`.
pub struct BatteryView {
    pub battery_text: Option<BatteryText>,
    pub battery_icon: Option<ImageRange>,
    pub linear: Option<LinearView>,
}

impl View for Battery {
    type V = BatteryView;

    open spec fn view(&self) -> BatteryView {
        BatteryView {
            battery_text: opt_view(self.battery_text),
            battery_icon: opt_view(self.battery_icon),
            linear: opt_view(self.linear),
        }
    }
}

impl Transform for Battery {
    open spec fn spec_blank() -> BatteryView {
        BatteryView {
            battery_text: None,
            battery_icon: None,
            linear: None,
        }
    }

    open spec fn spec_apply(v: BatteryView, key: u8, vals: Seq<PValue>) -> Option<BatteryView> {
        if key == 1 {
            match spec_option::<BatteryText>(v.battery_text, vals) {
                Some(x) => Some(BatteryView {
                    battery_text: x,
                    battery_icon: v.battery_icon,
                    linear: v.linear,
                }),
                None => None,
            }
        } else if key == 2 {
            match spec_option::<ImageRange>(v.battery_icon, vals) {
                Some(x) => Some(BatteryView {
                    battery_text: v.battery_text,
                    battery_icon: x,
                    linear: v.linear,
                }),
                None => None,
            }
        } else if key == 3 {
            match spec_option::<Linear>(v.linear, vals) {
                Some(x) => Some(BatteryView {
                    battery_text: v.battery_text,
                    battery_icon: v.battery_icon,
                    linear: x,
                }),
                None => None,
            }
        } else {
            Some(v)
        }
    }

    fn blank() -> (r: Self) {
        let r = Battery {
            battery_text: None,
            battery_icon: None,
            linear: None,
        };
        r
    }

    fn apply(&mut self, key: u8, vals: &Vec<Param>) -> (r: Result<(), ParseError>) {
        if key == 1 {
            transform_option::<BatteryText>(&mut self.battery_text, vals)
        } else if key == 2 {
            transform_option::<ImageRange>(&mut self.battery_icon, vals)
        } else if key == 3 {
            transform_option::<Linear>(&mut self.linear, vals)
        } else {
            Ok(())
        }
    }
}

/// Filling a `Battery` with entries: a field whose key occurs in no entry
/// keeps its value; one whose key occurs holds the value read from the last
/// entry under it, or, for an element field, read into its value from
/// before where no key occurs twice.
pub proof fn law_battery_fields(v: BatteryView, es: Seq<(u8, Seq<PValue>)>)
    ensures
        crate::transform::spec_fold::<Battery>(v, es) matches Some(r) ==> {
            &&& crate::params::key_index(es, 1) < 0 ==> r.battery_text == v.battery_text
            &&& crate::params::distinct_keys(es) && crate::params::key_index(es, 1) >= 0 ==> r.battery_text == spec_option::<BatteryText>(v.battery_text, es[crate::params::key_index(es, 1)].1).unwrap()
            &&& crate::params::key_index(es, 2) < 0 ==> r.battery_icon == v.battery_icon
            &&& crate::params::distinct_keys(es) && crate::params::key_index(es, 2) >= 0 ==> r.battery_icon == spec_option::<ImageRange>(v.battery_icon, es[crate::params::key_index(es, 2)].1).unwrap()
            &&& crate::params::key_index(es, 3) < 0 ==> r.linear == v.linear
            &&& crate::params::distinct_keys(es) && crate::params::key_index(es, 3) >= 0 ==> r.linear == spec_option::<Linear>(v.linear, es[crate::params::key_index(es, 3)].1).unwrap()
        },
    decreases es.len(),
{
    if es.len() > 0 {
        crate::transform::lemma_fold_last::<Battery>(v, es);
        law_battery_fields(v, es.drop_last());
        let d = es.drop_last();
        assert(crate::params::distinct_keys(es) ==> crate::params::distinct_keys(d));
        assert(es[es.len() - 1] == es.last());
        assert forall|k: u8| es.last().0 != k implies crate::params::key_index(es, k) == crate::params::key_index(d, k) && (crate::params::key_index(d, k) >= 0
            ==> es[crate::params::key_index(d, k)] == d[crate::params::key_index(d, k)]) by {
            crate::params::lemma_key_index_range(d, k);
        }
        assert forall|k: u8| es.last().0 == k && crate::params::distinct_keys(es) implies crate::params::key_index(d, k) < 0 by {
            crate::params::lemma_key_index_range(d, k);
            if crate::params::key_index(d, k) >= 0 {
                assert(es[crate::params::key_index(d, k)].0 == k);
            }
        }
    }
}

/// The parameters of BatteryText.
#[derive(Debug, PartialEq, Default)]
pub struct BatteryText {
    pub number: Option<NumberInRect>,
    pub prefix_image_index: Option<ImgId>,
    pub suffix_image_index: Option<ImgId>,
}

impl View for BatteryText {
    type V = BatteryText;

    open spec fn view(&self) -> BatteryText {
        *self
    }
}

impl Transform for BatteryText {
    open spec fn spec_blank() -> BatteryText {
        BatteryText {
            number: None,
            prefix_image_index: None,
            suffix_image_index: None,
        }
    }

    open spec fn spec_apply(v: BatteryText, key: u8, vals: Seq<PValue>) -> Option<BatteryText> {
        if key == 1 {
            match spec_option::<NumberInRect>(v.number, vals) {
                Some(x) => Some(BatteryText {
                    number: x,
                    prefix_image_index: v.prefix_image_index,
                    suffix_image_index: v.suffix_image_index,
                }),
                None => None,
            }
        } else if key == 3 {
            match spec_img_id_field(vals) {
                Some(x) => Some(BatteryText {
                    number: v.number,
                    prefix_image_index: x,
                    suffix_image_index: v.suffix_image_index,
                }),
                None => None,
            }
        } else if key == 4 {
            match spec_img_id_field(vals) {
                Some(x) => Some(BatteryText {
                    number: v.number,
                    prefix_image_index: v.prefix_image_index,
                    suffix_image_index: x,
                }),
                None => None,
            }
        } else {
            Some(v)
        }
    }

    fn blank() -> (r: Self) {
        let r = BatteryText {
            number: None,
            prefix_image_index: None,
            suffix_image_index: None,
        };
        r
    }

    fn apply(&mut self, key: u8, vals: &Vec<Param>) -> (r: Result<(), ParseError>) {
        if key == 1 {
            transform_option::<NumberInRect>(&mut self.number, vals)
        } else if key == 3 {
            transform_img_id(&mut self.prefix_image_index, vals)
        } else if key == 4 {
            transform_img_id(&mut self.suffix_image_index, vals)
        } else {
            Ok(())
        }
    }
}

/// Filling a `BatteryText` with entries: a field whose key occurs in no entry
/// keeps its value; one whose key occurs holds the value read from the last
/// entry under it, or, for an element field, read into its value from
/// before where no key occurs twice.
pub proof fn law_battery_text_fields(v: BatteryText, es: Seq<(u8, Seq<PValue>)>)
    ensures
        crate::transform::spec_fold::<BatteryText>(v, es) matches Some(r) ==> {
            &&& crate::params::key_index(es, 1) < 0 ==> r.number == v.number
            &&& crate::params::distinct_keys(es) && crate::params::key_index(es, 1) >= 0 ==> r.number == spec_option::<NumberInRect>(v.number, es[crate::params::key_index(es, 1)].1).unwrap()
            &&& crate::params::key_index(es, 3) < 0 ==> r.prefix_image_index == v.prefix_image_index
            &&& crate::params::key_index(es, 3) >= 0 ==> r.prefix_image_index == spec_img_id_field(es[crate::params::key_index(es, 3)].1).unwrap()
            &&& crate::params::key_index(es, 4) < 0 ==> r.suffix_image_index == v.suffix_image_index
            &&& crate::params::key_index(es, 4) >= 0 ==> r.suffix_image_index == spec_img_id_field(es[crate::params::key_index(es, 4)].1).unwrap()
        },
    decreases es.len(),
{
    if es.len() > 0 {
        crate::transform::lemma_fold_last::<BatteryText>(v, es);
        law_battery_text_fields(v, es.drop_last());
        let d = es.drop_last();
        assert(crate::params::distinct_keys(es) ==> crate::params::distinct_keys(d));
        assert(es[es.len() - 1] == es.last());
        assert forall|k: u8| es.last().0 != k implies crate::params::key_index(es, k) == crate::params::key_index(d, k) && (crate::params::key_index(d, k) >= 0
            ==> es[crate::params::key_index(d, k)] == d[crate::params::key_index(d, k)]) by {
            crate::params::lemma_key_index_range(d, k);
        }
        assert forall|k: u8| es.last().0 == k && crate::params::distinct_keys(es) implies crate::params::key_index(d, k) < 0 by {
            crate::params::lemma_key_index_range(d, k);
            if crate::params::key_index(d, k) >= 0 {
                assert(es[crate::params::key_index(d, k)].0 == k);
            }
        }
    }
}

/// The parameters of Linear.
#[derive(Debug, PartialEq, Default)]
pub struct Linear {
    pub start_image_index: Option<ImgId>,
    pub segments: Vec<Coordinates>,
}

/// The mathematical value of a `Linear`.
pub struct LinearView {
    pub start_image_index: Option<ImgId>,
    pub segments: Seq<Coordinates>,
}

impl View for Linear {
    type V = LinearView;

    open spec fn view(&self) -> LinearView {
        LinearView {
            start_image_index: self.start_image_index,
            segments: seq_view(self.segments@),
        }
    }
}

impl Transform for Linear {
    open spec fn spec_blank() -> LinearView {
        LinearView {
            start_image_index: None,
            segments: Seq::empty(),
        }
    }

    open spec fn spec_apply(v: LinearView, key: u8, vals: Seq<PValue>) -> Option<LinearView> {
        if key == 1 {
            match spec_img_id_field(vals) {
                Some(x) => Some(LinearView {
                    start_image_index: x,
                    segments: v.segments,
                }),
                None => None,
            }
        } else if key == 2 {
            match spec_list::<Coordinates>(v.segments, vals) {
                Some(x) => Some(LinearView {
                    start_image_index: v.start_image_index,
                    segments: x,
                }),
                None => None,
            }
        } else {
            Some(v)
        }
    }

    fn blank() -> (r: Self) {
        let r = Linear {
            start_image_index: None,
            segments: Vec::new(),
        };
        assert(seq_view(r.segments@) =~= Seq::<Coordinates>::empty());
        r
    }

    fn apply(&mut self, key: u8, vals: &Vec<Param>) -> (r: Result<(), ParseError>) {
        if key == 1 {
            transform_img_id(&mut self.start_image_index, vals)
        } else if key == 2 {
            transform_list::<Coordinates>(&mut self.segments, vals)
        } else {
            Ok(())
        }
    }
}

/// Filling a `Linear` with entries: a field whose key occurs in no entry
/// keeps its value; one whose key occurs holds the value read from the last
/// entry under it, or, for an element field, read into its value from
/// before where no key occurs twice.
pub proof fn law_linear_fields(v: LinearView, es: Seq<(u8, Seq<PValue>)>)
    ensures
        crate::transform::spec_fold::<Linear>(v, es) matches Some(r) ==> {
            &&& crate::params::key_index(es, 1) < 0 ==> r.start_image_index == v.start_image_index
            &&& crate::params::key_index(es, 1) >= 0 ==> r.start_image_index == spec_img_id_field(es[crate::params::key_index(es, 1)].1).unwrap()
            &&& crate::params::key_index(es, 2) < 0 ==> r.segments == v.segments
            &&& crate::params::distinct_keys(es) && crate::params::key_index(es, 2) >= 0 ==> r.segments == spec_list::<Coordinates>(v.segments, es[crate::params::key_index(es, 2)].1).unwrap()
        },
    decreases es.len(),
{
    if es.len() > 0 {
        crate::transform::lemma_fold_last::<Linear>(v, es);
        law_linear_fields(v, es.drop_last());
        let d = es.drop_last();
        assert(crate::params::distinct_keys(es) ==> crate::params::distinct_keys(d));
        assert(es[es.len() - 1] == es.last());
        assert forall|k: u8| es.last().0 != k implies crate::params::key_index(es, k) == crate::params::key_index(d, k) && (crate::params::key_index(d, k) >= 0
            ==> es[crate::params::key_index(d, k)] == d[crate::params::key_index(d, k)]) by {
            crate::params::lemma_key_index_range(d, k);
        }
        assert forall|k: u8| es.last().0 == k && crate::params::distinct_keys(es) implies crate::params::key_index(d, k) < 0 by {
            crate::params::lemma_key_index_range(d, k);
            if crate::params::key_index(d, k) >= 0 {
                assert(es[crate::params::key_index(d, k)].0 == k);
            }
        }
    }
}

/// The parameters of AnalogDialFace.
#[derive(Debug, PartialEq, Default)]
pub struct AnalogDialFace {
    pub hours: Option<VectorShape>,
    pub minutes: Option<VectorShape>,
    pub seconds: Option<VectorShape>,
}

/// The mathematical value of a `AnalogDialFace`.
pub struct AnalogDialFaceView {
    pub hours: Option<VectorShapeView>,
    pub minutes: Option<VectorShapeView>,
    pub seconds: Option<VectorShapeView>,
}

impl View for AnalogDialFace {
    type V = AnalogDialFaceView;

    open spec fn view(&self) -> AnalogDialFaceView {
        AnalogDialFaceView {
            hours: opt_view(self.hours),
            minutes: opt_view(self.minutes),
            seconds: opt_view(self.seconds),
        }
    }
}

impl Transform for AnalogDialFace {
    open spec fn spec_blank() -> AnalogDialFaceView {
        AnalogDialFaceView {
            hours: None,
            minutes: None,
            seconds: None,
        }
    }

    open spec fn spec_apply(v: AnalogDialFaceView, key: u8, vals: Seq<PValue>) -> Option<AnalogDialFaceView> {
        if key == 1 {
            match spec_option::<VectorShape>(v.hours, vals) {
                Some(x) => Some(AnalogDialFaceView {
                    hours: x,
                    minutes: v.minutes,
                    seconds: v.seconds,
                }),
                None => None,
            }
        } else if key == 2 {
            match spec_option::<VectorShape>(v.minutes, vals) {
                Some(x) => Some(AnalogDialFaceView {
                    hours: v.hours,
                    minutes: x,
                    seconds: v.seconds,
                }),
                None => None,
            }
        } else if key == 3 {
            match spec_option::<VectorShape>(v.seconds, vals) {
                Some(x) => Some(AnalogDialFaceView {
                    hours: v.hours,
                    minutes: v.minutes,
                    seconds: x,
                }),
                None => None,
            }
        } else {
            Some(v)
        }
    }

    fn blank() -> (r: Self) {
        let r = AnalogDialFace {
            hours: None,
            minutes: None,
            seconds: None,
        };
        r
    }

    fn apply(&mut self, key: u8, vals: &Vec<Param>) -> (r: Result<(), ParseError>) {
        if key == 1 {
            transform_option::<VectorShape>(&mut self.hours, vals)
        } else if key == 2 {
            transform_option::<VectorShape>(&mut self.minutes, vals)
        } else if key == 3 {
            transform_option::<VectorShape>(&mut self.seconds, vals)
        } else {
            Ok(())
        }
    }
}

/// Filling a `AnalogDialFace` with entries: a field whose key occurs in no entry
/// keeps its value; one whose key occurs holds the value read from the last
/// entry under it, or, for an element field, read into its value from
/// before where no key occurs twice.
pub proof fn law_analog_dial_face_fields(v: AnalogDialFaceView, es: Seq<(u8, Seq<PValue>)>)
    ensures
        crate::transform::spec_fold::<AnalogDialFace>(v, es) matches Some(r) ==> {
            &&& crate::params::key_index(es, 1) < 0 ==> r.hours == v.hours
            &&& crate::params::distinct_keys(es) && crate::params::key_index(es, 1) >= 0 ==> r.hours == spec_option::<VectorShape>(v.hours, es[crate::params::key_index(es, 1)].1).unwrap()
            &&& crate::params::key_index(es, 2) < 0 ==> r.minutes == v.minutes
            &&& crate::params::distinct_keys(es) && crate::params::key_index(es, 2) >= 0 ==> r.minutes == spec_option::<VectorShape>(v.minutes, es[crate::params::key_index(es, 2)].1).unwrap()
            &&& crate::params::key_index(es, 3) < 0 ==> r.seconds == v.seconds
            &&& crate::params::distinct_keys(es) && crate::params::key_index(es, 3) >= 0 ==> r.seconds == spec_option::<VectorShape>(v.seconds, es[crate::params::key_index(es, 3)].1).unwrap()
        },
    decreases es.len(),
{
    if es.len() > 0 {
        crate::transform::lemma_fold_last::<AnalogDialFace>(v, es);
        law_analog_dial_face_fields(v, es.drop_last());
        let d = es.drop_last();
        assert(crate::params::distinct_keys(es) ==> crate::params::distinct_keys(d));
        assert(es[es.len() - 1] == es.last());
        assert forall|k: u8| es.last().0 != k implies crate::params::key_index(es, k) == crate::params::key_index(d, k) && (crate::params::key_index(d, k) >= 0
            ==> es[crate::params::key_index(d, k)] == d[crate::params::key_index(d, k)]) by {
            crate::params::lemma_key_index_range(d, k);
        }
        assert forall|k: u8| es.last().0 == k && crate::params::distinct_keys(es) implies crate::params::key_index(d, k) < 0 by {
            crate::params::lemma_key_index_range(d, k);
            if crate::params::key_index(d, k) >= 0 {
                assert(es[crate::params::key_index(d, k)].0 == k);
            }
        }
    }
}

/// The parameters of Other.
#[derive(Debug, PartialEq, Default)]
pub struct Other {
    pub animation: Animations,
}

/// The mathematical value of a `Other`.
pub struct OtherView {
    pub animation: Seq<Animation>,
}

impl View for Other {
    type V = OtherView;

    open spec fn view(&self) -> OtherView {
        OtherView {
            animation: self.animation@,
        }
    }
}

impl Transform for Other {
    open spec fn spec_blank() -> OtherView {
        OtherView {
            animation: Seq::empty(),
        }
    }

    open spec fn spec_apply(v: OtherView, key: u8, vals: Seq<PValue>) -> Option<OtherView> {
        if key == 1 {
            match spec_list::<Animation>(v.animation, vals) {
                Some(x) => Some(OtherView {
                    animation: x,
                }),
                None => None,
            }
        } else {
            Some(v)
        }
    }

    fn blank() -> (r: Self) {
        let r = Other {
            animation: Animations(Vec::new()),
        };
        assert(r.animation@ =~= Seq::<Animation>::empty());
        r
    }

    fn apply(&mut self, key: u8, vals: &Vec<Param>) -> (r: Result<(), ParseError>) {
        if key == 1 {
            transform_list::<Animation>(&mut self.animation.0, vals)
        } else {
            Ok(())
        }
    }
}

/// Filling a `Other` with entries: a field whose key occurs in no entry
/// keeps its value; one whose key occurs holds the value read from the last
/// entry under it, or, for an element field, read into its value from
/// before where no key occurs twice.
pub proof fn law_other_fields(v: OtherView, es: Seq<(u8, Seq<PValue>)>)
    ensures
        crate::transform::spec_fold::<Other>(v, es) matches Some(r) ==> {
            &&& crate::params::key_index(es, 1) < 0 ==> r.animation == v.animation
            &&& crate::params::distinct_keys(es) && crate::params::key_index(es, 1) >= 0 ==> r.animation == spec_list::<Animation>(v.animation, es[crate::params::key_index(es, 1)].1).unwrap()
        },
    decreases es.len(),
{
    if es.len() > 0 {
        crate::transform::lemma_fold_last::<Other>(v, es);
        law_other_fields(v, es.drop_last());
        let d = es.drop_last();
        assert(crate::params::distinct_keys(es) ==> crate::params::distinct_keys(d));
        assert(es[es.len() - 1] == es.last());
        assert forall|k: u8| es.last().0 != k implies crate::params::key_index(es, k) == crate::params::key_index(d, k) && (crate::params::key_index(d, k) >= 0
            ==> es[crate::params::key_index(d, k)] == d[crate::params::key_index(d, k)]) by {
            crate::params::lemma_key_index_range(d, k);
        }
        assert forall|k: u8| es.last().0 == k && crate::params::distinct_keys(es) implies crate::params::key_index(d, k) < 0 by {
            crate::params::lemma_key_index_range(d, k);
            if crate::params::key_index(d, k) >= 0 {
                assert(es[crate::params::key_index(d, k)].0 == k);
            }
        }
    }
}

/// The parameters of Animation.
#[derive(Debug, PartialEq, Default)]
pub struct Animation {
    pub animation_images: Option<ImageRange>,
    pub speed: Option<u32>,
    pub repeat_count: Option<u32>,
    pub unknown_v4: Option<u32>,
}

impl View for Animation {
    type V = Animation;

    open spec fn view(&self) -> Animation {
        *self
    }
}

impl Transform for Animation {
    open spec fn spec_blank() -> Animation {
        Animation {
            animation_images: None,
            speed: None,
            repeat_count: None,
            unknown_v4: None,
        }
    }

    open spec fn spec_apply(v: Animation, key: u8, vals: Seq<PValue>) -> Option<Animation> {
        if key == 1 {
            match spec_option::<ImageRange>(v.animation_images, vals) {
                Some(x) => Some(Animation {
                    animation_images: x,
                    speed: v.speed,
                    repeat_count: v.repeat_count,
                    unknown_v4: v.unknown_v4,
                }),
                None => None,
            }
        } else if key == 2 {
            match spec_u32_field(vals) {
                Some(x) => Some(Animation {
                    animation_images: v.animation_images,
                    speed: x,
                    repeat_count: v.repeat_count,
                    unknown_v4: v.unknown_v4,
                }),
                None => None,
            }
        } else if key == 3 {
            match spec_u32_field(vals) {
                Some(x) => Some(Animation {
                    animation_images: v.animation_images,
                    speed: v.speed,
                    repeat_count: x,
                    unknown_v4: v.unknown_v4,
                }),
                None => None,
            }
        } else if key == 4 {
            match spec_u32_field(vals) {
                Some(x) => Some(Animation {
                    animation_images: v.animation_images,
                    speed: v.speed,
                    repeat_count: v.repeat_count,
                    unknown_v4: x,
                }),
                None => None,
            }
        } else {
            Some(v)
        }
    }

    fn blank() -> (r: Self) {
        let r = Animation {
            animation_images: None,
            speed: None,
            repeat_count: None,
            unknown_v4: None,
        };
        r
    }

    fn apply(&mut self, key: u8, vals: &Vec<Param>) -> (r: Result<(), ParseError>) {
        if key == 1 {
            transform_option::<ImageRange>(&mut self.animation_images, vals)
        } else if key == 2 {
            transform_u32(&mut self.speed, vals)
        } else if key == 3 {
            transform_u32(&mut self.repeat_count, vals)
        } else if key == 4 {
            transform_u32(&mut self.unknown_v4, vals)
        } else {
            Ok(())
        }
    }
}

/// Filling a `Animation` with entries: a field whose key occurs in no entry
/// keeps its value; one whose key occurs holds the value read from the last
/// entry under it, or, for an element field, read into its value from
/// before where no key occurs twice.
pub proof fn law_animation_fields(v: Animation, es: Seq<(u8, Seq<PValue>)>)
    ensures
        crate::transform::spec_fold::<Animation>(v, es) matches Some(r) ==> {
            &&& crate::params::key_index(es, 1) < 0 ==> r.animation_images == v.animation_images
            &&& crate::params::distinct_keys(es) && crate::params::key_index(es, 1) >= 0 ==> r.animation_images == spec_option::<ImageRange>(v.animation_images, es[crate::params::key_index(es, 1)].1).unwrap()
            &&& crate::params::key_index(es, 2) < 0 ==> r.speed == v.speed
            &&& crate::params::key_index(es, 2) >= 0 ==> r.speed == spec_u32_field(es[crate::params::key_index(es, 2)].1).unwrap()
            &&& crate::params::key_index(es, 3) < 0 ==> r.repeat_count == v.repeat_count
            &&& crate::params::key_index(es, 3) >= 0 ==> r.repeat_count == spec_u32_field(es[crate::params::key_index(es, 3)].1).unwrap()
            &&& crate::params::key_index(es, 4) < 0 ==> r.unknown_v4 == v.unknown_v4
            &&& crate::params::key_index(es, 4) >= 0 ==> r.unknown_v4 == spec_u32_field(es[crate::params::key_index(es, 4)].1).unwrap()
        },
    decreases es.len(),
{
    if es.len() > 0 {
        crate::transform::lemma_fold_last::<Animation>(v, es);
        law_animation_fields(v, es.drop_last());
        let d = es.drop_last();
        assert(crate::params::distinct_keys(es) ==> crate::params::distinct_keys(d));
        assert(es[es.len() - 1] == es.last());
        assert forall|k: u8| es.last().0 != k implies crate::params::key_index(es, k) == crate::params::key_index(d, k) && (crate::params::key_index(d, k) >= 0
            ==> es[crate::params::key_index(d, k)] == d[crate::params::key_index(d, k)]) by {
            crate::params::lemma_key_index_range(d, k);
        }
        assert forall|k: u8| es.last().0 == k && crate::params::distinct_keys(es) implies crate::params::key_index(d, k) < 0 by {
            crate::params::lemma_key_index_range(d, k);
            if crate::params::key_index(d, k) >= 0 {
                assert(es[crate::params::key_index(d, k)].0 == k);
            }
        }
    }
}

/// The parameters of HeartProgress.
#[derive(Debug, PartialEq, Default)]
pub struct HeartProgress {
    pub line_scale: Option<ImageRange>,
    pub linear: Option<Linear>,
    pub circle_scale: Option<CircleScale>,
}

/// The mathematical value of a `HeartProgress`.
pub struct HeartProgressView {
    pub line_scale: Option<ImageRange>,
    pub linear: Option<LinearView>,
    pub circle_scale: Option<CircleScale>,
}

impl View for HeartProgress {
    type V = HeartProgressView;

    open spec fn view(&self) -> HeartProgressView {
        HeartProgressView {
            line_scale: opt_view(self.line_scale),
            linear: opt_view(self.linear),
            circle_scale: opt_view(self.circle_scale),
        }
    }
}

impl Transform for HeartProgress {
    open spec fn spec_blank() -> HeartProgressView {
        HeartProgressView {
            line_scale: None,
            linear: None,
            circle_scale: None,
        }
    }

    open spec fn spec_apply(v: HeartProgressView, key: u8, vals: Seq<PValue>) -> Option<HeartProgressView> {
        if key == 2 {
            match spec_option::<ImageRange>(v.line_scale, vals) {
                Some(x) => Some(HeartProgressView {
                    line_scale: x,
                    linear: v.linear,
                    circle_scale: v.circle_scale,
                }),
                None => None,
            }
        } else if key == 3 {
            match spec_option::<Linear>(v.linear, vals) {
                Some(x) => Some(HeartProgressView {
                    line_scale: v.line_scale,
                    linear: x,
                    circle_scale: v.circle_scale,
                }),
                None => None,
            }
        } else if key == 4 {
            match spec_option::<CircleScale>(v.circle_scale, vals) {
                Some(x) => Some(HeartProgressView {
                    line_scale: v.line_scale,
                    linear: v.linear,
                    circle_scale: x,
                }),
                None => None,
            }
        } else {
            Some(v)
        }
    }

    fn blank() -> (r: Self) {
        let r = HeartProgress {
            line_scale: None,
            linear: None,
            circle_scale: None,
        };
        r
    }

    fn apply(&mut self, key: u8, vals: &Vec<Param>) -> (r: Result<(), ParseError>) {
        if key == 2 {
            transform_option::<ImageRange>(&mut self.line_scale, vals)
        } else if key == 3 {
            transform_option::<Linear>(&mut self.linear, vals)
        } else if key == 4 {
            transform_option::<CircleScale>(&mut self.circle_scale, vals)
        } else {
            Ok(())
        }
    }
}

/// Filling a `HeartProgress` with entries: a field whose key occurs in no entry
/// keeps its value; one whose key occurs holds the value read from the last
/// entry under it, or, for an element field, read into its value from
/// before where no key occurs twice.
pub proof fn law_heart_progress_fields(v: HeartProgressView, es: Seq<(u8, Seq<PValue>)>)
    ensures
        crate::transform::spec_fold::<HeartProgress>(v, es) matches Some(r) ==> {
            &&& crate::params::key_index(es, 2) < 0 ==> r.line_scale == v.line_scale
            &&& crate::params::distinct_keys(es) && crate::params::key_index(es, 2) >= 0 ==> r.line_scale == spec_option::<ImageRange>(v.line_scale, es[crate::params::key_index(es, 2)].1).unwrap()
            &&& crate::params::key_index(es, 3) < 0 ==> r.linear == v.linear
            &&& crate::params::distinct_keys(es) && crate::params::key_index(es, 3) >= 0 ==> r.linear == spec_option::<Linear>(v.linear, es[crate::params::key_index(es, 3)].1).unwrap()
            &&& crate::params::key_index(es, 4) < 0 ==> r.circle_scale == v.circle_scale
            &&& crate::params::distinct_keys(es) && crate::params::key_index(es, 4) >= 0 ==> r.circle_scale == spec_option::<CircleScale>(v.circle_scale, es[crate::params::key_index(es, 4)].1).unwrap()
        },
    decreases es.len(),
{
    if es.len() > 0 {
        crate::transform::lemma_fold_last::<HeartProgress>(v, es);
        law_heart_progress_fields(v, es.drop_last());
        let d = es.drop_last();
        assert(crate::params::distinct_keys(es) ==> crate::params::distinct_keys(d));
        assert(es[es.len() - 1] == es.last());
        assert forall|k: u8| es.last().0 != k implies crate::params::key_index(es, k) == crate::params::key_index(d, k) && (crate::params::key_index(d, k) >= 0
            ==> es[crate::params::key_index(d, k)] == d[crate::params::key_index(d, k)]) by {
            crate::params::lemma_key_index_range(d, k);
        }
        assert forall|k: u8| es.last().0 == k && crate::params::distinct_keys(es) implies crate::params::key_index(d, k) < 0 by {
            crate::params::lemma_key_index_range(d, k);
            if crate::params::key_index(d, k) >= 0 {
                assert(es[crate::params::key_index(d, k)].0 == k);
            }
        }
    }
}

/// The parameters of CircleScale.
#[derive(Debug, PartialEq, Default)]
pub struct CircleScale {
    pub center_x: Option<u32>,
    pub center_y: Option<u32>,
    pub radius_x: Option<u32>,
    pub radius_y: Option<u32>,
    pub start_angle: Option<u32>,
    pub end_angle: Option<u32>,
    pub width: Option<u32>,
    pub color: Option<Color>,
}

impl View for CircleScale {
    type V = CircleScale;

    open spec fn view(&self) -> CircleScale {
        *self
    }
}

impl Transform for CircleScale {
    open spec fn spec_blank() -> CircleScale {
        CircleScale {
            center_x: None,
            center_y: None,
            radius_x: None,
            radius_y: None,
            start_angle: None,
            end_angle: None,
            width: None,
            color: None,
        }
    }

    open spec fn spec_apply(v: CircleScale, key: u8, vals: Seq<PValue>) -> Option<CircleScale> {
        if key == 1 {
            match spec_u32_field(vals) {
                Some(x) => Some(CircleScale {
                    center_x: x,
                    center_y: v.center_y,
                    radius_x: v.radius_x,
                    radius_y: v.radius_y,
                    start_angle: v.start_angle,
                    end_angle: v.end_angle,
                    width: v.width,
                    color: v.color,
                }),
                None => None,
            }
        } else if key == 2 {
            match spec_u32_field(vals) {
                Some(x) => Some(CircleScale {
                    center_x: v.center_x,
                    center_y: x,
                    radius_x: v.radius_x,
                    radius_y: v.radius_y,
                    start_angle: v.start_angle,
                    end_angle: v.end_angle,
                    width: v.width,
                    color: v.color,
                }),
                None => None,
            }
        } else if key == 3 {
            match spec_u32_field(vals) {
                Some(x) => Some(CircleScale {
                    center_x: v.center_x,
                    center_y: v.center_y,
                    radius_x: x,
                    radius_y: v.radius_y,
                    start_angle: v.start_angle,
                    end_angle: v.end_angle,
                    width: v.width,
                    color: v.color,
                }),
                None => None,
            }
        } else if key == 4 {
            match spec_u32_field(vals) {
                Some(x) => Some(CircleScale {
                    center_x: v.center_x,
                    center_y: v.center_y,
                    radius_x: v.radius_x,
                    radius_y: x,
                    start_angle: v.start_angle,
                    end_angle: v.end_angle,
                    width: v.width,
                    color: v.color,
                }),
                None => None,
            }
        } else if key == 5 {
            match spec_u32_field(vals) {
                Some(x) => Some(CircleScale {
                    center_x: v.center_x,
                    center_y: v.center_y,
                    radius_x: v.radius_x,
                    radius_y: v.radius_y,
                    start_angle: x,
                    end_angle: v.end_angle,
                    width: v.width,
                    color: v.color,
                }),
                None => None,
            }
        } else if key == 6 {
            match spec_u32_field(vals) {
                Some(x) => Some(CircleScale {
                    center_x: v.center_x,
                    center_y: v.center_y,
                    radius_x: v.radius_x,
                    radius_y: v.radius_y,
                    start_angle: v.start_angle,
                    end_angle: x,
                    width: v.width,
                    color: v.color,
                }),
                None => None,
            }
        } else if key == 7 {
            match spec_u32_field(vals) {
                Some(x) => Some(CircleScale {
                    center_x: v.center_x,
                    center_y: v.center_y,
                    radius_x: v.radius_x,
                    radius_y: v.radius_y,
                    start_angle: v.start_angle,
                    end_angle: v.end_angle,
                    width: x,
                    color: v.color,
                }),
                None => None,
            }
        } else if key == 8 {
            match spec_color_field(vals) {
                Some(x) => Some(CircleScale {
                    center_x: v.center_x,
                    center_y: v.center_y,
                    radius_x: v.radius_x,
                    radius_y: v.radius_y,
                    start_angle: v.start_angle,
                    end_angle: v.end_angle,
                    width: v.width,
                    color: x,
                }),
                None => None,
            }
        } else {
            Some(v)
        }
    }

    fn blank() -> (r: Self) {
        let r = CircleScale {
            center_x: None,
            center_y: None,
            radius_x: None,
            radius_y: None,
            start_angle: None,
            end_angle: None,
            width: None,
            color: None,
        };
        r
    }

    fn apply(&mut self, key: u8, vals: &Vec<Param>) -> (r: Result<(), ParseError>) {
        if key == 1 {
            transform_u32(&mut self.center_x, vals)
        } else if key == 2 {
            transform_u32(&mut self.center_y, vals)
        } else if key == 3 {
            transform_u32(&mut self.radius_x, vals)
        } else if key == 4 {
            transform_u32(&mut self.radius_y, vals)
        } else if key == 5 {
            transform_u32(&mut self.start_angle, vals)
        } else if key == 6 {
            transform_u32(&mut self.end_angle, vals)
        } else if key == 7 {
            transform_u32(&mut self.width, vals)
        } else if key == 8 {
            transform_color(&mut self.color, vals)
        } else {
            Ok(())
        }
    }
}

/// Filling a `CircleScale` with entries: a field whose key occurs in no entry
/// keeps its value; one whose key occurs holds the value read from the last
/// entry under it, or, for an element field, read into its value from
/// before where no key occurs twice.
pub proof fn law_circle_scale_fields(v: CircleScale, es: Seq<(u8, Seq<PValue>)>)
    ensures
        crate::transform::spec_fold::<CircleScale>(v, es) matches Some(r) ==> {
            &&& crate::params::key_index(es, 1) < 0 ==> r.center_x == v.center_x
            &&& crate::params::key_index(es, 1) >= 0 ==> r.center_x == spec_u32_field(es[crate::params::key_index(es, 1)].1).unwrap()
            &&& crate::params::key_index(es, 2) < 0 ==> r.center_y == v.center_y
            &&& crate::params::key_index(es, 2) >= 0 ==> r.center_y == spec_u32_field(es[crate::params::key_index(es, 2)].1).unwrap()
            &&& crate::params::key_index(es, 3) < 0 ==> r.radius_x == v.radius_x
            &&& crate::params::key_index(es, 3) >= 0 ==> r.radius_x == spec_u32_field(es[crate::params::key_index(es, 3)].1).unwrap()
            &&& crate::params::key_index(es, 4) < 0 ==> r.radius_y == v.radius_y
            &&& crate::params::key_index(es, 4) >= 0 ==> r.radius_y == spec_u32_field(es[crate::params::key_index(es, 4)].1).unwrap()
            &&& crate::params::key_index(es, 5) < 0 ==> r.start_angle == v.start_angle
            &&& crate::params::key_index(es, 5) >= 0 ==> r.start_angle == spec_u32_field(es[crate::params::key_index(es, 5)].1).unwrap()
            &&& crate::params::key_index(es, 6) < 0 ==> r.end_angle == v.end_angle
            &&& crate::params::key_index(es, 6) >= 0 ==> r.end_angle == spec_u32_field(es[crate::params::key_index(es, 6)].1).unwrap()
            &&& crate::params::key_index(es, 7) < 0 ==> r.width == v.width
            &&& crate::params::key_index(es, 7) >= 0 ==> r.width == spec_u32_field(es[crate::params::key_index(es, 7)].1).unwrap()
            &&& crate::params::key_index(es, 8) < 0 ==> r.color == v.color
            &&& crate::params::key_index(es, 8) >= 0 ==> r.color == spec_color_field(es[crate::params::key_index(es, 8)].1).unwrap()
        },
    decreases es.len(),
{
    if es.len() > 0 {
        crate::transform::lemma_fold_last::<CircleScale>(v, es);
        law_circle_scale_fields(v, es.drop_last());
        let d = es.drop_last();
        assert(crate::params::distinct_keys(es) ==> crate::params::distinct_keys(d));
        assert(es[es.len() - 1] == es.last());
        assert forall|k: u8| es.last().0 != k implies crate::params::key_index(es, k) == crate::params::key_index(d, k) && (crate::params::key_index(d, k) >= 0
            ==> es[crate::params::key_index(d, k)] == d[crate::params::key_index(d, k)]) by {
            crate::params::lemma_key_index_range(d, k);
        }
        assert forall|k: u8| es.last().0 == k && crate::params::distinct_keys(es) implies crate::params::key_index(d, k) < 0 by {
            crate::params::lemma_key_index_range(d, k);
            if crate::params::key_index(d, k) >= 0 {
                assert(es[crate::params::key_index(d, k)].0 == k);
            }
        }
    }
}

/// The parameters of WeekDaysIcons.
#[derive(Debug, PartialEq, Default)]
pub struct WeekDaysIcons {
    pub monday: Option<ImageReference>,
    pub tuesday: Option<ImageReference>,
    pub wednesday: Option<ImageReference>,
    pub thursday: Option<ImageReference>,
    pub friday: Option<ImageReference>,
    pub saturday: Option<ImageReference>,
    pub sunday: Option<ImageReference>,
}

impl View for WeekDaysIcons {
    type V = WeekDaysIcons;

    open spec fn view(&self) -> WeekDaysIcons {
        *self
    }
}

impl Transform for WeekDaysIcons {
    open spec fn spec_blank() -> WeekDaysIcons {
        WeekDaysIcons {
            monday: None,
            tuesday: None,
            wednesday: None,
            thursday: None,
            friday: None,
            saturday: None,
            sunday: None,
        }
    }

    open spec fn spec_apply(v: WeekDaysIcons, key: u8, vals: Seq<PValue>) -> Option<WeekDaysIcons> {
        if key == 1 {
            match spec_option::<ImageReference>(v.monday, vals) {
                Some(x) => Some(WeekDaysIcons {
                    monday: x,
                    tuesday: v.tuesday,
                    wednesday: v.wednesday,
                    thursday: v.thursday,
                    friday: v.friday,
                    saturday: v.saturday,
                    sunday: v.sunday,
                }),
                None => None,
            }
        } else if key == 2 {
            match spec_option::<ImageReference>(v.tuesday, vals) {
                Some(x) => Some(WeekDaysIcons {
                    monday: v.monday,
                    tuesday: x,
                    wednesday: v.wednesday,
                    thursday: v.thursday,
                    friday: v.friday,
                    saturday: v.saturday,
                    sunday: v.sunday,
                }),
                None => None,
            }
        } else if key == 3 {
            match spec_option::<ImageReference>(v.wednesday, vals) {
                Some(x) => Some(WeekDaysIcons {
                    monday: v.monday,
                    tuesday: v.tuesday,
                    wednesday: x,
                    thursday: v.thursday,
                    friday: v.friday,
                    saturday: v.saturday,
                    sunday: v.sunday,
                }),
                None => None,
            }
        } else if key == 4 {
            match spec_option::<ImageReference>(v.thursday, vals) {
                Some(x) => Some(WeekDaysIcons {
                    monday: v.monday,
                    tuesday: v.tuesday,
                    wednesday: v.wednesday,
                    thursday: x,
                    friday: v.friday,
                    saturday: v.saturday,
                    sunday: v.sunday,
                }),
                None => None,
            }
        } else if key == 5 {
            match spec_option::<ImageReference>(v.friday, vals) {
                Some(x) => Some(WeekDaysIcons {
                    monday: v.monday,
                    tuesday: v.tuesday,
                    wednesday: v.wednesday,
                    thursday: v.thursday,
                    friday: x,
                    saturday: v.saturday,
                    sunday: v.sunday,
                }),
                None => None,
            }
        } else if key == 6 {
            match spec_option::<ImageReference>(v.saturday, vals) {
                Some(x) => Some(WeekDaysIcons {
                    monday: v.monday,
                    tuesday: v.tuesday,
                    wednesday: v.wednesday,
                    thursday: v.thursday,
                    friday: v.friday,
                    saturday: x,
                    sunday: v.sunday,
                }),
                None => None,
            }
        } else if key == 7 {
            match spec_option::<ImageReference>(v.sunday, vals) {
                Some(x) => Some(WeekDaysIcons {
                    monday: v.monday,
                    tuesday: v.tuesday,
                    wednesday: v.wednesday,
                    thursday: v.thursday,
                    friday: v.friday,
                    saturday: v.saturday,
                    sunday: x,
                }),
                None => None,
            }
        } else {
            Some(v)
        }
    }

    fn blank() -> (r: Self) {
        let r = WeekDaysIcons {
            monday: None,
            tuesday: None,
            wednesday: None,
            thursday: None,
            friday: None,
            saturday: None,
            sunday: None,
        };
        r
    }

    fn apply(&mut self, key: u8, vals: &Vec<Param>) -> (r: Result<(), ParseError>) {
        if key == 1 {
            transform_option::<ImageReference>(&mut self.monday, vals)
        } else if key == 2 {
            transform_option::<ImageReference>(&mut self.tuesday, vals)
        } else if key == 3 {
            transform_option::<ImageReference>(&mut self.wednesday, vals)
        } else if key == 4 {
            transform_option::<ImageReference>(&mut self.thursday, vals)
        } else if key == 5 {
            transform_option::<ImageReference>(&mut self.friday, vals)
        } else if key == 6 {
            transform_option::<ImageReference>(&mut self.saturday, vals)
        } else if key == 7 {
            transform_option::<ImageReference>(&mut self.sunday, vals)
        } else {
            Ok(())
        }
    }
}

/// Filling a `WeekDaysIcons` with entries: a field whose key occurs in no entry
/// keeps its value; one whose key occurs holds the value read from the last
/// entry under it, or, for an element field, read into its value from
/// before where no key occurs twice.
pub proof fn law_week_days_icons_fields(v: WeekDaysIcons, es: Seq<(u8, Seq<PValue>)>)
    ensures
        crate::transform::spec_fold::<WeekDaysIcons>(v, es) matches Some(r) ==> {
            &&& crate::params::key_index(es, 1) < 0 ==> r.monday == v.monday
            &&& crate::params::distinct_keys(es) && crate::params::key_index(es, 1) >= 0 ==> r.monday == spec_option::<ImageReference>(v.monday, es[crate::params::key_index(es, 1)].1).unwrap()
            &&& crate::params::key_index(es, 2) < 0 ==> r.tuesday == v.tuesday
            &&& crate::params::distinct_keys(es) && crate::params::key_index(es, 2) >= 0 ==> r.tuesday == spec_option::<ImageReference>(v.tuesday, es[crate::params::key_index(es, 2)].1).unwrap()
            &&& crate::params::key_index(es, 3) < 0 ==> r.wednesday == v.wednesday
            &&& crate::params::distinct_keys(es) && crate::params::key_index(es, 3) >= 0 ==> r.wednesday == spec_option::<ImageReference>(v.wednesday, es[crate::params::key_index(es, 3)].1).unwrap()
            &&& crate::params::key_index(es, 4) < 0 ==> r.thursday == v.thursday
            &&& crate::params::distinct_keys(es) && crate::params::key_index(es, 4) >= 0 ==> r.thursday == spec_option::<ImageReference>(v.thursday, es[crate::params::key_index(es, 4)].1).unwrap()
            &&& crate::params::key_index(es, 5) < 0 ==> r.friday == v.friday
            &&& crate::params::distinct_keys(es) && crate::params::key_index(es, 5) >= 0 ==> r.friday == spec_option::<ImageReference>(v.friday, es[crate::params::key_index(es, 5)].1).unwrap()
            &&& crate::params::key_index(es, 6) < 0 ==> r.saturday == v.saturday
            &&& crate::params::distinct_keys(es) && crate::params::key_index(es, 6) >= 0 ==> r.saturday == spec_option::<ImageReference>(v.saturday, es[crate::params::key_index(es, 6)].1).unwrap()
            &&& crate::params::key_index(es, 7) < 0 ==> r.sunday == v.sunday
            &&& crate::params::distinct_keys(es) && crate::params::key_index(es, 7) >= 0 ==> r.sunday == spec_option::<ImageReference>(v.sunday, es[crate::params::key_index(es, 7)].1).unwrap()
        },
    decreases es.len(),
{
    if es.len() > 0 {
        crate::transform::lemma_fold_last::<WeekDaysIcons>(v, es);
        law_week_days_icons_fields(v, es.drop_last());
        let d = es.drop_last();
        assert(crate::params::distinct_keys(es) ==> crate::params::distinct_keys(d));
        assert(es[es.len() - 1] == es.last());
        assert forall|k: u8| es.last().0 != k implies crate::params::key_index(es, k) == crate::params::key_index(d, k) && (crate::params::key_index(d, k) >= 0
            ==> es[crate::params::key_index(d, k)] == d[crate::params::key_index(d, k)]) by {
            crate::params::lemma_key_index_range(d, k);
        }
        assert forall|k: u8| es.last().0 == k && crate::params::distinct_keys(es) implies crate::params::key_index(d, k) < 0 by {
            crate::params::lemma_key_index_range(d, k);
            if crate::params::key_index(d, k) >= 0 {
                assert(es[crate::params::key_index(d, k)].0 == k);
            }
        }
    }
}

/// The parameters of CaloriesProgress.
#[derive(Debug, PartialEq, Default)]
pub struct CaloriesProgress {
    pub goal_image: Option<ImageReference>,
    pub line_scale: Option<ImageRange>,
    pub linear: Option<Linear>,
}

/// The mathematical value of a `CaloriesProgress`.
pub struct CaloriesProgressView {
    pub goal_image: Option<ImageReference>,
    pub line_scale: Option<ImageRange>,
    pub linear: Option<LinearView>,
}

impl View for CaloriesProgress {
    type V = CaloriesProgressView;

    open spec fn view(&self) -> CaloriesProgressView {
        CaloriesProgressView {
            goal_image: opt_view(self.goal_image),
            line_scale: opt_view(self.line_scale),
            linear: opt_view(self.linear),
        }
    }
}

impl Transform for CaloriesProgress {
    open spec fn spec_blank() -> CaloriesProgressView {
        CaloriesProgressView {
            goal_image: None,
            line_scale: None,
            linear: None,
        }
    }

    open spec fn spec_apply(v: CaloriesProgressView, key: u8, vals: Seq<PValue>) -> Option<CaloriesProgressView> {
        if key == 1 {
            match spec_option::<ImageReference>(v.goal_image, vals) {
                Some(x) => Some(CaloriesProgressView {
                    goal_image: x,
                    line_scale: v.line_scale,
                    linear: v.linear,
                }),
                None => None,
            }
        } else if key == 2 {
            match spec_option::<ImageRange>(v.line_scale, vals) {
                Some(x) => Some(CaloriesProgressView {
                    goal_image: v.goal_image,
                    line_scale: x,
                    linear: v.linear,
                }),
                None => None,
            }
        } else if key == 3 {
            match spec_option::<Linear>(v.linear, vals) {
                Some(x) => Some(CaloriesProgressView {
                    goal_image: v.goal_image,
                    line_scale: v.line_scale,
                    linear: x,
                }),
                None => None,
            }
        } else {
            Some(v)
        }
    }

    fn blank() -> (r: Self) {
        let r = CaloriesProgress {
            goal_image: None,
            line_scale: None,
            linear: None,
        };
        r
    }

    fn apply(&mut self, key: u8, vals: &Vec<Param>) -> (r: Result<(), ParseError>) {
        if key == 1 {
            transform_option::<ImageReference>(&mut self.goal_image, vals)
        } else if key == 2 {
            transform_option::<ImageRange>(&mut self.line_scale, vals)
        } else if key == 3 {
            transform_option::<Linear>(&mut self.linear, vals)
        } else {
            Ok(())
        }
    }
}

/// Filling a `CaloriesProgress` with entries: a field whose key occurs in no entry
/// keeps its value; one whose key occurs holds the value read from the last
/// entry under it, or, for an element field, read into its value from
/// before where no key occurs twice.
pub proof fn law_calories_progress_fields(v: CaloriesProgressView, es: Seq<(u8, Seq<PValue>)>)
    ensures
        crate::transform::spec_fold::<CaloriesProgress>(v, es) matches Some(r) ==> {
            &&& crate::params::key_index(es, 1) < 0 ==> r.goal_image == v.goal_image
            &&& crate::params::distinct_keys(es) && crate::params::key_index(es, 1) >= 0 ==> r.goal_image == spec_option::<ImageReference>(v.goal_image, es[crate::params::key_index(es, 1)].1).unwrap()
            &&& crate::params::key_index(es, 2) < 0 ==> r.line_scale == v.line_scale
            &&& crate::params::distinct_keys(es) && crate::params::key_index(es, 2) >= 0 ==> r.line_scale == spec_option::<ImageRange>(v.line_scale, es[crate::params::key_index(es, 2)].1).unwrap()
            &&& crate::params::key_index(es, 3) < 0 ==> r.linear == v.linear
            &&& crate::params::distinct_keys(es) && crate::params::key_index(es, 3) >= 0 ==> r.linear == spec_option::<Linear>(v.linear, es[crate::params::key_index(es, 3)].1).unwrap()
        },
    decreases es.len(),
{
    if es.len() > 0 {
        crate::transform::lemma_fold_last::<CaloriesProgress>(v, es);
        law_calories_progress_fields(v, es.drop_last());
        let d = es.drop_last();
        assert(crate::params::distinct_keys(es) ==> crate::params::distinct_keys(d));
        assert(es[es.len() - 1] == es.last());
        assert forall|k: u8| es.last().0 != k implies crate::params::key_index(es, k) == crate::params::key_index(d, k) && (crate::params::key_index(d, k) >= 0
            ==> es[crate::params::key_index(d, k)] == d[crate::params::key_index(d, k)]) by {
            crate::params::lemma_key_index_range(d, k);
        }
        assert forall|k: u8| es.last().0 == k && crate::params::distinct_keys(es) implies crate::params::key_index(d, k) < 0 by {
            crate::params::lemma_key_index_range(d, k);
            if crate::params::key_index(d, k) >= 0 {
                assert(es[crate::params::key_index(d, k)].0 == k);
            }
        }
    }
}

/// The parameters of Alarm.
#[derive(Debug, PartialEq, Default)]
pub struct Alarm {
    pub number: Option<NumberInRect>,
    pub delimiter_image_index: Option<ImgId>,
    pub on_image: Option<ImageReference>,
    pub off_image: Option<ImageReference>,
    pub no_data_image: Option<ImageReference>,
    unknown_v6: i32,
    unknown_v7: i32,
}

impl View for Alarm {
    type V = Alarm;

    open spec fn view(&self) -> Alarm {
        *self
    }
}

impl Transform for Alarm {
    closed spec fn spec_blank() -> Alarm {
        Alarm {
            number: None,
            delimiter_image_index: None,
            on_image: None,
            off_image: None,
            no_data_image: None,
            unknown_v6: 0i32,
            unknown_v7: 0i32,
        }
    }

    closed spec fn spec_apply(v: Alarm, key: u8, vals: Seq<PValue>) -> Option<Alarm> {
        if key == 1 {
            match spec_option::<NumberInRect>(v.number, vals) {
                Some(x) => Some(Alarm {
                    number: x,
                    delimiter_image_index: v.delimiter_image_index,
                    on_image: v.on_image,
                    off_image: v.off_image,
                    no_data_image: v.no_data_image,
                    unknown_v6: v.unknown_v6,
                    unknown_v7: v.unknown_v7,
                }),
                None => None,
            }
        } else if key == 2 {
            match spec_img_id_field(vals) {
                Some(x) => Some(Alarm {
                    number: v.number,
                    delimiter_image_index: x,
                    on_image: v.on_image,
                    off_image: v.off_image,
                    no_data_image: v.no_data_image,
                    unknown_v6: v.unknown_v6,
                    unknown_v7: v.unknown_v7,
                }),
                None => None,
            }
        } else if key == 3 {
            match spec_option::<ImageReference>(v.on_image, vals) {
                Some(x) => Some(Alarm {
                    number: v.number,
                    delimiter_image_index: v.delimiter_image_index,
                    on_image: x,
                    off_image: v.off_image,
                    no_data_image: v.no_data_image,
                    unknown_v6: v.unknown_v6,
                    unknown_v7: v.unknown_v7,
                }),
                None => None,
            }
        } else if key == 4 {
            match spec_option::<ImageReference>(v.off_image, vals) {
                Some(x) => Some(Alarm {
                    number: v.number,
                    delimiter_image_index: v.delimiter_image_index,
                    on_image: v.on_image,
                    off_image: x,
                    no_data_image: v.no_data_image,
                    unknown_v6: v.unknown_v6,
                    unknown_v7: v.unknown_v7,
                }),
                None => None,
            }
        } else if key == 5 {
            match spec_option::<ImageReference>(v.no_data_image, vals) {
                Some(x) => Some(Alarm {
                    number: v.number,
                    delimiter_image_index: v.delimiter_image_index,
                    on_image: v.on_image,
                    off_image: v.off_image,
                    no_data_image: x,
                    unknown_v6: v.unknown_v6,
                    unknown_v7: v.unknown_v7,
                }),
                None => None,
            }
        } else if key == 6 {
            match spec_i32_field(vals) {
                Some(x) => Some(Alarm {
                    number: v.number,
                    delimiter_image_index: v.delimiter_image_index,
                    on_image: v.on_image,
                    off_image: v.off_image,
                    no_data_image: v.no_data_image,
                    unknown_v6: x,
                    unknown_v7: v.unknown_v7,
                }),
                None => None,
            }
        } else if key == 7 {
            match spec_i32_field(vals) {
                Some(x) => Some(Alarm {
                    number: v.number,
                    delimiter_image_index: v.delimiter_image_index,
                    on_image: v.on_image,
                    off_image: v.off_image,
                    no_data_image: v.no_data_image,
                    unknown_v6: v.unknown_v6,
                    unknown_v7: x,
                }),
                None => None,
            }
        } else {
            Some(v)
        }
    }

    fn blank() -> (r: Self) {
        let r = Alarm {
            number: None,
            delimiter_image_index: None,
            on_image: None,
            off_image: None,
            no_data_image: None,
            unknown_v6: 0,
            unknown_v7: 0,
        };
        r
    }

    fn apply(&mut self, key: u8, vals: &Vec<Param>) -> (r: Result<(), ParseError>) {
        if key == 1 {
            transform_option::<NumberInRect>(&mut self.number, vals)
        } else if key == 2 {
            transform_img_id(&mut self.delimiter_image_index, vals)
        } else if key == 3 {
            transform_option::<ImageReference>(&mut self.on_image, vals)
        } else if key == 4 {
            transform_option::<ImageReference>(&mut self.off_image, vals)
        } else if key == 5 {
            transform_option::<ImageReference>(&mut self.no_data_image, vals)
        } else if key == 6 {
            transform_i32(&mut self.unknown_v6, vals)
        } else if key == 7 {
            transform_i32(&mut self.unknown_v7, vals)
        } else {
            Ok(())
        }
    }
}


/// The parameters of UnknownStruct.
#[derive(Debug, PartialEq, Default)]
pub struct UnknownStruct {
    pub unknown_1: Option<NumberInRect>,
    pub unknown_2: Option<NumberInRect>,
    pub unknown_3: Option<ImgId>,
    pub unknown_4: Option<ImgId>,
    pub unknown_5: Option<ImgId>,
    pub unknown_6: Option<ImgId>,
    pub unknown_7: Option<ImgId>,
}

impl View for UnknownStruct {
    type V = UnknownStruct;

    open spec fn view(&self) -> UnknownStruct {
        *self
    }
}

impl Transform for UnknownStruct {
    open spec fn spec_blank() -> UnknownStruct {
        UnknownStruct {
            unknown_1: None,
            unknown_2: None,
            unknown_3: None,
            unknown_4: None,
            unknown_5: None,
            unknown_6: None,
            unknown_7: None,
        }
    }

    open spec fn spec_apply(v: UnknownStruct, key: u8, vals: Seq<PValue>) -> Option<UnknownStruct> {
        if key == 1 {
            match spec_option::<NumberInRect>(v.unknown_1, vals) {
                Some(x) => Some(UnknownStruct {
                    unknown_1: x,
                    unknown_2: v.unknown_2,
                    unknown_3: v.unknown_3,
                    unknown_4: v.unknown_4,
                    unknown_5: v.unknown_5,
                    unknown_6: v.unknown_6,
                    unknown_7: v.unknown_7,
                }),
                None => None,
            }
        } else if key == 2 {
            match spec_option::<NumberInRect>(v.unknown_2, vals) {
                Some(x) => Some(UnknownStruct {
                    unknown_1: v.unknown_1,
                    unknown_2: x,
                    unknown_3: v.unknown_3,
                    unknown_4: v.unknown_4,
                    unknown_5: v.unknown_5,
                    unknown_6: v.unknown_6,
                    unknown_7: v.unknown_7,
                }),
                None => None,
            }
        } else if key == 3 {
            match spec_img_id_field(vals) {
                Some(x) => Some(UnknownStruct {
                    unknown_1: v.unknown_1,
                    unknown_2: v.unknown_2,
                    unknown_3: x,
                    unknown_4: v.unknown_4,
                    unknown_5: v.unknown_5,
                    unknown_6: v.unknown_6,
                    unknown_7: v.unknown_7,
                }),
                None => None,
            }
        } else if key == 4 {
            match spec_img_id_field(vals) {
                Some(x) => Some(UnknownStruct {
                    unknown_1: v.unknown_1,
                    unknown_2: v.unknown_2,
                    unknown_3: v.unknown_3,
                    unknown_4: x,
                    unknown_5: v.unknown_5,
                    unknown_6: v.unknown_6,
                    unknown_7: v.unknown_7,
                }),
                None => None,
            }
        } else if key == 5 {
            match spec_img_id_field(vals) {
                Some(x) => Some(UnknownStruct {
                    unknown_1: v.unknown_1,
                    unknown_2: v.unknown_2,
                    unknown_3: v.unknown_3,
                    unknown_4: v.unknown_4,
                    unknown_5: x,
                    unknown_6: v.unknown_6,
                    unknown_7: v.unknown_7,
                }),
                None => None,
            }
        } else if key == 6 {
            match spec_img_id_field(vals) {
                Some(x) => Some(UnknownStruct {
                    unknown_1: v.unknown_1,
                    unknown_2: v.unknown_2,
                    unknown_3: v.unknown_3,
                    unknown_4: v.unknown_4,
                    unknown_5: v.unknown_5,
                    unknown_6: x,
                    unknown_7: v.unknown_7,
                }),
                None => None,
            }
        } else if key == 7 {
            match spec_img_id_field(vals) {
                Some(x) => Some(UnknownStruct {
                    unknown_1: v.unknown_1,
                    unknown_2: v.unknown_2,
                    unknown_3: v.unknown_3,
                    unknown_4: v.unknown_4,
                    unknown_5: v.unknown_5,
                    unknown_6: v.unknown_6,
                    unknown_7: x,
                }),
                None => None,
            }
        } else {
            Some(v)
        }
    }

    fn blank() -> (r: Self) {
        let r = UnknownStruct {
            unknown_1: None,
            unknown_2: None,
            unknown_3: None,
            unknown_4: None,
            unknown_5: None,
            unknown_6: None,
            unknown_7: None,
        };
        r
    }

    fn apply(&mut self, key: u8, vals: &Vec<Param>) -> (r: Result<(), ParseError>) {
        if key == 1 {
            transform_option::<NumberInRect>(&mut self.unknown_1, vals)
        } else if key == 2 {
            transform_option::<NumberInRect>(&mut self.unknown_2, vals)
        } else if key == 3 {
            transform_img_id(&mut self.unknown_3, vals)
        } else if key == 4 {
            transform_img_id(&mut self.unknown_4, vals)
        } else if key == 5 {
            transform_img_id(&mut self.unknown_5, vals)
        } else if key == 6 {
            transform_img_id(&mut self.unknown_6, vals)
        } else if key == 7 {
            transform_img_id(&mut self.unknown_7, vals)
        } else {
            Ok(())
        }
    }
}

/// Filling a `UnknownStruct` with entries: a field whose key occurs in no entry
/// keeps its value; one whose key occurs holds the value read from the last
/// entry under it, or, for an element field, read into its value from
/// before where no key occurs twice.
pub proof fn law_unknown_struct_fields(v: UnknownStruct, es: Seq<(u8, Seq<PValue>)>)
    ensures
        crate::transform::spec_fold::<UnknownStruct>(v, es) matches Some(r) ==> {
            &&& crate::params::key_index(es, 1) < 0 ==> r.unknown_1 == v.unknown_1
            &&& crate::params::distinct_keys(es) && crate::params::key_index(es, 1) >= 0 ==> r.unknown_1 == spec_option::<NumberInRect>(v.unknown_1, es[crate::params::key_index(es, 1)].1).unwrap()
            &&& crate::params::key_index(es, 2) < 0 ==> r.unknown_2 == v.unknown_2
            &&& crate::params::distinct_keys(es) && crate::params::key_index(es, 2) >= 0 ==> r.unknown_2 == spec_option::<NumberInRect>(v.unknown_2, es[crate::params::key_index(es, 2)].1).unwrap()
            &&& crate::params::key_index(es, 3) < 0 ==> r.unknown_3 == v.unknown_3
            &&& crate::params::key_index(es, 3) >= 0 ==> r.unknown_3 == spec_img_id_field(es[crate::params::key_index(es, 3)].1).unwrap()
            &&& crate::params::key_index(es, 4) < 0 ==> r.unknown_4 == v.unknown_4
            &&& crate::params::key_index(es, 4) >= 0 ==> r.unknown_4 == spec_img_id_field(es[crate::params::key_index(es, 4)].1).unwrap()
            &&& crate::params::key_index(es, 5) < 0 ==> r.unknown_5 == v.unknown_5
            &&& crate::params::key_index(es, 5) >= 0 ==> r.unknown_5 == spec_img_id_field(es[crate::params::key_index(es, 5)].1).unwrap()
            &&& crate::params::key_index(es, 6) < 0 ==> r.unknown_6 == v.unknown_6
            &&& crate::params::key_index(es, 6) >= 0 ==> r.unknown_6 == spec_img_id_field(es[crate::params::key_index(es, 6)].1).unwrap()
            &&& crate::params::key_index(es, 7) < 0 ==> r.unknown_7 == v.unknown_7
            &&& crate::params::key_index(es, 7) >= 0 ==> r.unknown_7 == spec_img_id_field(es[crate::params::key_index(es, 7)].1).unwrap()
        },
    decreases es.len(),
{
    if es.len() > 0 {
        crate::transform::lemma_fold_last::<UnknownStruct>(v, es);
        law_unknown_struct_fields(v, es.drop_last());
        let d = es.drop_last();
        assert(crate::params::distinct_keys(es) ==> crate::params::distinct_keys(d));
        assert(es[es.len() - 1] == es.last());
        assert forall|k: u8| es.last().0 != k implies crate::params::key_index(es, k) == crate::params::key_index(d, k) && (crate::params::key_index(d, k) >= 0
            ==> es[crate::params::key_index(d, k)] == d[crate::params::key_index(d, k)]) by {
            crate::params::lemma_key_index_range(d, k);
        }
        assert forall|k: u8| es.last().0 == k && crate::params::distinct_keys(es) implies crate::params::key_index(d, k) < 0 by {
            crate::params::lemma_key_index_range(d, k);
            if crate::params::key_index(d, k) >= 0 {
                assert(es[crate::params::key_index(d, k)].0 == k);
            }
        }
    }
}

/// The parameters of LunarDate.
#[derive(Debug, PartialEq, Default)]
pub struct LunarDate {
    pub month: Option<ImageRange>,
    pub day: Option<NumberInRect>,
    pub day_of_0x: Option<ImgId>,
    pub day_of_2x: Option<ImgId>,
    pub day_of_10: Option<ImgId>,
    pub day_of_20: Option<ImgId>,
    pub day_of_30: Option<ImgId>,
    pub day_cn2: Option<NumberInRect>,
}

impl View for LunarDate {
    type V = LunarDate;

    open spec fn view(&self) -> LunarDate {
        *self
    }
}

impl Transform for LunarDate {
    open spec fn spec_blank() -> LunarDate {
        LunarDate {
            month: None,
            day: None,
            day_of_0x: None,
            day_of_2x: None,
            day_of_10: None,
            day_of_20: None,
            day_of_30: None,
            day_cn2: None,
        }
    }

    open spec fn spec_apply(v: LunarDate, key: u8, vals: Seq<PValue>) -> Option<LunarDate> {
        if key == 1 {
            match spec_option::<ImageRange>(v.month, vals) {
                Some(x) => Some(LunarDate {
                    month: x,
                    day: v.day,
                    day_of_0x: v.day_of_0x,
                    day_of_2x: v.day_of_2x,
                    day_of_10: v.day_of_10,
                    day_of_20: v.day_of_20,
                    day_of_30: v.day_of_30,
                    day_cn2: v.day_cn2,
                }),
                None => None,
            }
        } else if key == 2 {
            match spec_option::<NumberInRect>(v.day, vals) {
                Some(x) => Some(LunarDate {
                    month: v.month,
                    day: x,
                    day_of_0x: v.day_of_0x,
                    day_of_2x: v.day_of_2x,
                    day_of_10: v.day_of_10,
                    day_of_20: v.day_of_20,
                    day_of_30: v.day_of_30,
                    day_cn2: v.day_cn2,
                }),
                None => None,
            }
        } else if key == 3 {
            match spec_img_id_field(vals) {
                Some(x) => Some(LunarDate {
                    month: v.month,
                    day: v.day,
                    day_of_0x: x,
                    day_of_2x: v.day_of_2x,
                    day_of_10: v.day_of_10,
                    day_of_20: v.day_of_20,
                    day_of_30: v.day_of_30,
                    day_cn2: v.day_cn2,
                }),
                None => None,
            }
        } else if key == 4 {
            match spec_img_id_field(vals) {
                Some(x) => Some(LunarDate {
                    month: v.month,
                    day: v.day,
                    day_of_0x: v.day_of_0x,
                    day_of_2x: x,
                    day_of_10: v.day_of_10,
                    day_of_20: v.day_of_20,
                    day_of_30: v.day_of_30,
                    day_cn2: v.day_cn2,
                }),
                None => None,
            }
        } else if key == 5 {
            match spec_img_id_field(vals) {
                Some(x) => Some(LunarDate {
                    month: v.month,
                    day: v.day,
                    day_of_0x: v.day_of_0x,
                    day_of_2x: v.day_of_2x,
                    day_of_10: x,
                    day_of_20: v.day_of_20,
                    day_of_30: v.day_of_30,
                    day_cn2: v.day_cn2,
                }),
                None => None,
            }
        } else if key == 6 {
            match spec_img_id_field(vals) {
                Some(x) => Some(LunarDate {
                    month: v.month,
                    day: v.day,
                    day_of_0x: v.day_of_0x,
                    day_of_2x: v.day_of_2x,
                    day_of_10: v.day_of_10,
                    day_of_20: x,
                    day_of_30: v.day_of_30,
                    day_cn2: v.day_cn2,
                }),
                None => None,
            }
        } else if key == 7 {
            match spec_img_id_field(vals) {
                Some(x) => Some(LunarDate {
                    month: v.month,
                    day: v.day,
                    day_of_0x: v.day_of_0x,
                    day_of_2x: v.day_of_2x,
                    day_of_10: v.day_of_10,
                    day_of_20: v.day_of_20,
                    day_of_30: x,
                    day_cn2: v.day_cn2,
                }),
                None => None,
            }
        } else if key == 10 {
            match spec_option::<NumberInRect>(v.day_cn2, vals) {
                Some(x) => Some(LunarDate {
                    month: v.month,
                    day: v.day,
                    day_of_0x: v.day_of_0x,
                    day_of_2x: v.day_of_2x,
                    day_of_10: v.day_of_10,
                    day_of_20: v.day_of_20,
                    day_of_30: v.day_of_30,
                    day_cn2: x,
                }),
                None => None,
            }
        } else {
            Some(v)
        }
    }

    fn blank() -> (r: Self) {
        let r = LunarDate {
            month: None,
            day: None,
            day_of_0x: None,
            day_of_2x: None,
            day_of_10: None,
            day_of_20: None,
            day_of_30: None,
            day_cn2: None,
        };
        r
    }

    fn apply(&mut self, key: u8, vals: &Vec<Param>) -> (r: Result<(), ParseError>) {
        if key == 1 {
            transform_option::<ImageRange>(&mut self.month, vals)
        } else if key == 2 {
            transform_option::<NumberInRect>(&mut self.day, vals)
        } else if key == 3 {
            transform_img_id(&mut self.day_of_0x, vals)
        } else if key == 4 {
            transform_img_id(&mut self.day_of_2x, vals)
        } else if key == 5 {
            transform_img_id(&mut self.day_of_10, vals)
        } else if key == 6 {
            transform_img_id(&mut self.day_of_20, vals)
        } else if key == 7 {
            transform_img_id(&mut self.day_of_30, vals)
        } else if key == 10 {
            transform_option::<NumberInRect>(&mut self.day_cn2, vals)
        } else {
            Ok(())
        }
    }
}

/// Filling a `LunarDate` with entries: a field whose key occurs in no entry
/// keeps its value; one whose key occurs holds the value read from the last
/// entry under it, or, for an element field, read into its value from
/// before where no key occurs twice.
pub proof fn law_lunar_date_fields(v: LunarDate, es: Seq<(u8, Seq<PValue>)>)
    ensures
        crate::transform::spec_fold::<LunarDate>(v, es) matches Some(r) ==> {
            &&& crate::params::key_index(es, 1) < 0 ==> r.month == v.month
            &&& crate::params::distinct_keys(es) && crate::params::key_index(es, 1) >= 0 ==> r.month == spec_option::<ImageRange>(v.month, es[crate::params::key_index(es, 1)].1).unwrap()
            &&& crate::params::key_index(es, 2) < 0 ==> r.day == v.day
            &&& crate::params::distinct_keys(es) && crate::params::key_index(es, 2) >= 0 ==> r.day == spec_option::<NumberInRect>(v.day, es[crate::params::key_index(es, 2)].1).unwrap()
            &&& crate::params::key_index(es, 3) < 0 ==> r.day_of_0x == v.day_of_0x
            &&& crate::params::key_index(es, 3) >= 0 ==> r.day_of_0x == spec_img_id_field(es[crate::params::key_index(es, 3)].1).unwrap()
            &&& crate::params::key_index(es, 4) < 0 ==> r.day_of_2x == v.day_of_2x
            &&& crate::params::key_index(es, 4) >= 0 ==> r.day_of_2x == spec_img_id_field(es[crate::params::key_index(es, 4)].1).unwrap()
            &&& crate::params::key_index(es, 5) < 0 ==> r.day_of_10 == v.day_of_10
            &&& crate::params::key_index(es, 5) >= 0 ==> r.day_of_10 == spec_img_id_field(es[crate::params::key_index(es, 5)].1).unwrap()
            &&& crate::params::key_index(es, 6) < 0 ==> r.day_of_20 == v.day_of_20
            &&& crate::params::key_index(es, 6) >= 0 ==> r.day_of_20 == spec_img_id_field(es[crate::params::key_index(es, 6)].1).unwrap()
            &&& crate::params::key_index(es, 7) < 0 ==> r.day_of_30 == v.day_of_30
            &&& crate::params::key_index(es, 7) >= 0 ==> r.day_of_30 == spec_img_id_field(es[crate::params::key_index(es, 7)].1).unwrap()
            &&& crate::params::key_index(es, 10) < 0 ==> r.day_cn2 == v.day_cn2
            &&& crate::params::distinct_keys(es) && crate::params::key_index(es, 10) >= 0 ==> r.day_cn2 == spec_option::<NumberInRect>(v.day_cn2, es[crate::params::key_index(es, 10)].1).unwrap()
        },
    decreases es.len(),
{
    if es.len() > 0 {
        crate::transform::lemma_fold_last::<LunarDate>(v, es);
        law_lunar_date_fields(v, es.drop_last());
        let d = es.drop_last();
        assert(crate::params::distinct_keys(es) ==> crate::params::distinct_keys(d));
        assert(es[es.len() - 1] == es.last());
        assert forall|k: u8| es.last().0 != k implies crate::params::key_index(es, k) == crate::params::key_index(d, k) && (crate::params::key_index(d, k) >= 0
            ==> es[crate::params::key_index(d, k)] == d[crate::params::key_index(d, k)]) by {
            crate::params::lemma_key_index_range(d, k);
        }
        assert forall|k: u8| es.last().0 == k && crate::params::distinct_keys(es) implies crate::params::key_index(d, k) < 0 by {
            crate::params::lemma_key_index_range(d, k);
            if crate::params::key_index(d, k) >= 0 {
                assert(es[crate::params::key_index(d, k)].0 == k);
            }
        }
    }
}

impl WatchfaceParams for MiBandParams {
}

/// A key that the parameters of a watchface do not know leaves them as they
/// were.
pub proof fn law_unknown_keys_ignored(v: MiBandParamsView, key: u8, vals: Seq<PValue>)
    requires
        !(2 <= key <= 12 || key == 14 || key == 15 || key == 18 || key == 20 || key == 21 || key == 22),
    ensures
        <MiBandParams as Transform>::spec_apply(v, key, vals) == Some(v),
{
}

impl Alarm {
    /// The rectangle and digits of the alarm time.
    pub closed spec fn spec_number(self) -> Option<NumberInRect> {
        self.number
    }

    /// The image between the hours and the minutes.
    pub closed spec fn spec_delimiter_image_index(self) -> Option<ImgId> {
        self.delimiter_image_index
    }

    /// The image shown when the alarm is on.
    pub closed spec fn spec_on_image(self) -> Option<ImageReference> {
        self.on_image
    }

    /// The image shown when the alarm is off.
    pub closed spec fn spec_off_image(self) -> Option<ImageReference> {
        self.off_image
    }

    /// See `spec_number`.
    pub fn get_number(&self) -> (r: &Option<NumberInRect>)
        ensures
            *r == self.spec_number(),
    {
        &self.number
    }

    /// See `spec_delimiter_image_index`.
    pub fn get_delimiter_image_index(&self) -> (r: &Option<ImgId>)
        ensures
            *r == self.spec_delimiter_image_index(),
    {
        &self.delimiter_image_index
    }

    /// See `spec_on_image`.
    pub fn get_on_image(&self) -> (r: &Option<ImageReference>)
        ensures
            *r == self.spec_on_image(),
    {
        &self.on_image
    }

    /// See `spec_off_image`.
    pub fn get_off_image(&self) -> (r: &Option<ImageReference>)
        ensures
            *r == self.spec_off_image(),
    {
        &self.off_image
    }

    /// The image shown when no alarm is set.
    pub closed spec fn spec_no_data_image(self) -> Option<ImageReference> {
        self.no_data_image
    }

    /// The sixth and seventh fields, whose meaning is not known.
    pub closed spec fn spec_unknowns(self) -> (i32, i32) {
        (self.unknown_v6, self.unknown_v7)
    }

    /// See `spec_no_data_image`.
    pub fn get_no_data_image(&self) -> (r: &Option<ImageReference>)
        ensures
            *r == self.spec_no_data_image(),
    {
        &self.no_data_image
    }

    /// See `spec_unknowns`.
    pub fn get_unknowns(&self) -> (r: (i32, i32))
        ensures
            r == self.spec_unknowns(),
    {
        (self.unknown_v6, self.unknown_v7)
    }
}

impl Alarm {
    /// The fields: the number, the delimiter, the "on", "off" and "no data"
    /// images, and the sixth and seventh fields, whose meaning is not known.
    pub closed spec fn fields(self) -> (
        Option<NumberInRect>,
        Option<ImgId>,
        Option<ImageReference>,
        Option<ImageReference>,
        Option<ImageReference>,
        i32,
        i32,
    ) {
        (
            self.number,
            self.delimiter_image_index,
            self.on_image,
            self.off_image,
            self.no_data_image,
            self.unknown_v6,
            self.unknown_v7,
        )
    }

    /// An alarm with the given fields.
    pub fn new(
        number: Option<NumberInRect>,
        delimiter_image_index: Option<ImgId>,
        on_image: Option<ImageReference>,
        off_image: Option<ImageReference>,
        no_data_image: Option<ImageReference>,
        unknown_v6: i32,
        unknown_v7: i32,
    ) -> (r: Alarm)
        ensures
            r.fields() == (number, delimiter_image_index, on_image, off_image, no_data_image, unknown_v6, unknown_v7),
    {
        Alarm { number, delimiter_image_index, on_image, off_image, no_data_image, unknown_v6, unknown_v7 }
    }
}

/// An alarm is its fields; its getters give them; before any parameter all
/// are none or 0; keys 1 to 7 fill them in that order, the element fields
/// through the option transform; other keys leave it as it was.
pub proof fn lemma_alarm_fields(v: Alarm, w: Alarm, key: u8, vals: Seq<PValue>)
    ensures
        v.fields() == w.fields() ==> v == w,
        v.spec_number() == v.fields().0 && v.spec_delimiter_image_index() == v.fields().1,
        v.spec_on_image() == v.fields().2 && v.spec_off_image() == v.fields().3,
        v.spec_no_data_image() == v.fields().4 && v.spec_unknowns() == (v.fields().5, v.fields().6),
        <Alarm as Transform>::spec_blank().fields() == (None::<NumberInRect>, None::<ImgId>, None::<ImageReference>, None::<ImageReference>, None::<ImageReference>, 0i32, 0i32),
        key == 1 ==> match spec_option::<NumberInRect>(v.fields().0, vals) {
            Some(x) => <Alarm as Transform>::spec_apply(v, key, vals) matches Some(r)
                && r.fields() == (x, v.fields().1, v.fields().2, v.fields().3, v.fields().4, v.fields().5, v.fields().6),
            None => <Alarm as Transform>::spec_apply(v, key, vals) is None,
        },
        key == 2 ==> match spec_img_id_field(vals) {
            Some(x) => <Alarm as Transform>::spec_apply(v, key, vals) matches Some(r)
                && r.fields() == (v.fields().0, x, v.fields().2, v.fields().3, v.fields().4, v.fields().5, v.fields().6),
            None => <Alarm as Transform>::spec_apply(v, key, vals) is None,
        },
        key == 3 ==> match spec_option::<ImageReference>(v.fields().2, vals) {
            Some(x) => <Alarm as Transform>::spec_apply(v, key, vals) matches Some(r)
                && r.fields() == (v.fields().0, v.fields().1, x, v.fields().3, v.fields().4, v.fields().5, v.fields().6),
            None => <Alarm as Transform>::spec_apply(v, key, vals) is None,
        },
        key == 4 ==> match spec_option::<ImageReference>(v.fields().3, vals) {
            Some(x) => <Alarm as Transform>::spec_apply(v, key, vals) matches Some(r)
                && r.fields() == (v.fields().0, v.fields().1, v.fields().2, x, v.fields().4, v.fields().5, v.fields().6),
            None => <Alarm as Transform>::spec_apply(v, key, vals) is None,
        },
        key == 5 ==> match spec_option::<ImageReference>(v.fields().4, vals) {
            Some(x) => <Alarm as Transform>::spec_apply(v, key, vals) matches Some(r)
                && r.fields() == (v.fields().0, v.fields().1, v.fields().2, v.fields().3, x, v.fields().5, v.fields().6),
            None => <Alarm as Transform>::spec_apply(v, key, vals) is None,
        },
        key == 6 ==> match spec_i32_field(vals) {
            Some(x) => <Alarm as Transform>::spec_apply(v, key, vals) matches Some(r)
                && r.fields() == (v.fields().0, v.fields().1, v.fields().2, v.fields().3, v.fields().4, x, v.fields().6),
            None => <Alarm as Transform>::spec_apply(v, key, vals) is None,
        },
        key == 7 ==> match spec_i32_field(vals) {
            Some(x) => <Alarm as Transform>::spec_apply(v, key, vals) matches Some(r)
                && r.fields() == (v.fields().0, v.fields().1, v.fields().2, v.fields().3, v.fields().4, v.fields().5, x),
            None => <Alarm as Transform>::spec_apply(v, key, vals) is None,
        },
        !(1 <= key <= 7) ==> <Alarm as Transform>::spec_apply(v, key, vals) == Some(v),
{
}

} // verus!
