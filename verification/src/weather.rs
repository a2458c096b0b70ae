//! Weather: what a forecast service answers, and what the library takes from it.
use crate::clock::{format_clock_time, local_day, local_minute, local_seconds, local_time};
use crate::quantity::Quantity;
use vstd::prelude::*;
use vstd::string::*;

verus! {

/// What the sun does on a day, in minutes of the local day.
#[derive(Debug, Clone, Copy, PartialEq, Eq, Structural)]
pub struct SolarForecastDay {
    pub day: i64,
    pub sunrise_minute: u16,
    pub sunset_minute: u16,
}

/// The weather at the moment of an answer.
#[derive(Debug)]
pub struct CurrentWeather {
    pub time: i64,
    pub temperature_2m: Quantity,
    pub apparent_temperature: Quantity,
    pub precipitation: Quantity,
    pub weather_code: u8,
    pub cloud_cover: u8,
    pub is_day: u8,
    pub shortwave_radiation: Quantity,
}

/// The days of an answer: when each begins, and its sunrise and sunset.
#[derive(Debug)]
pub struct DailyWeather {
    pub time: Vec<i64>,
    pub sunrise: Vec<i64>,
    pub sunset: Vec<i64>,
}

/// The hours of an answer, with the light that was measured or foretold.
#[derive(Debug)]
pub struct HourlyWeather {
    pub time: Vec<i64>,
    pub shortwave_radiation: Vec<Option<Quantity>>,
}

/// What the forecast service answers.
#[derive(Debug)]
pub struct WeatherResponse {
    pub utc_offset_seconds: i32,
    pub timezone_abbreviation: String,
    pub current: CurrentWeather,
    pub daily: DailyWeather,
    pub hourly: HourlyWeather,
}

/// A reading of light that a chart shows: its place among the hours, and its clock time.
#[derive(Debug, Clone)]
pub struct LightReading {
    pub index: usize,
    pub time: String,
}

/// An hour of the day, and the readings that its average is taken from, by their places among
/// the hours of the answer.
#[derive(Debug, Clone)]
pub struct LightHour {
    pub hour: u16,
    pub readings: Vec<usize>,
    pub time: String,
}

/// What a chart of the light of a day shows: the readings of that day, and for each hour of
/// the day that has any the readings of the days up to its end.
#[derive(Debug, Clone)]
pub struct LightPlan {
    pub day_start: i64,
    pub day_end: i64,
    pub solar_start: i64,
    pub solar_end: i64,
    pub average_days: usize,
    pub readings: Vec<LightReading>,
    pub hours: Vec<LightHour>,
    pub sunrise: String,
    pub sunset: String,
}

/// The weather of a moment, with the sun of its day.
#[derive(Debug, Clone)]
pub struct WeatherSnapshot {
    pub time: i64,
    pub sunrise: i64,
    pub sunset: i64,
    pub shortwave_radiation: Quantity,
    pub utc_offset_seconds: i32,
    pub timezone_abbreviation: String,
    pub temperature: Quantity,
    pub apparent_temperature: Quantity,
    pub precipitation: Quantity,
    pub weather_code: u8,
    pub cloud_cover: u8,
    pub is_day: bool,
    pub previous_day_light: Option<LightPlan>,
    pub solar_days: Vec<SolarForecastDay>,
}

/// The hours of an answer that have both a time and a place for light.
pub open spec fn hour_count(hourly: HourlyWeather) -> int {
    if hourly.time@.len() <= hourly.shortwave_radiation@.len() {
        hourly.time@.len() as int
    } else {
        hourly.shortwave_radiation@.len() as int
    }
}

/// Whether an hour lies in a range of time and has a reading of light.
pub open spec fn lit(hourly: HourlyWeather, start: int, end: int, index: int) -> bool {
    start <= hourly.time@[index] < end && hourly.shortwave_radiation@[index] is Some
}

/// The first `count` hours that lie in a range of time and have a reading of light, in order.
pub open spec fn lit_hours(hourly: HourlyWeather, start: int, end: int, count: int) -> Seq<int>
    decreases count,
{
    if count <= 0 {
        seq![]
    } else if lit(hourly, start, end, count - 1) {
        lit_hours(hourly, start, end, count - 1).push(count - 1)
    } else {
        lit_hours(hourly, start, end, count - 1)
    }
}

/// The local hour of the day of an hour of the answer.
pub open spec fn hour_of_day(hourly: HourlyWeather, utc_offset_seconds: int, index: int) -> int {
    crate::clock::seconds_of_day(hourly.time@[index] as int, utc_offset_seconds) / 3_600
}

/// The first `count` hours that lie in a range of time, have a reading of light and fall on an
/// hour of the day, in order.
pub open spec fn lit_hours_of(
    hourly: HourlyWeather,
    start: int,
    end: int,
    utc_offset_seconds: int,
    hour: int,
    count: int,
) -> Seq<int>
    decreases count,
{
    if count <= 0 {
        seq![]
    } else {
        let front = lit_hours_of(hourly, start, end, utc_offset_seconds, hour, count - 1);
        if lit(hourly, start, end, count - 1) && hour_of_day(hourly, utc_offset_seconds, count - 1)
            == hour {
            front.push(count - 1)
        } else {
            front
        }
    }
}

/// The hours of the day among the first `count` that have a reading of light in a range of time.
pub open spec fn hours_with_light(
    hourly: HourlyWeather,
    start: int,
    end: int,
    utc_offset_seconds: int,
    count: int,
) -> Seq<int>
    decreases count,
{
    if count <= 0 {
        seq![]
    } else {
        let front = hours_with_light(hourly, start, end, utc_offset_seconds, count - 1);
        if lit_hours_of(
            hourly,
            start,
            end,
            utc_offset_seconds,
            count - 1,
            hour_count(hourly),
        ).len() > 0 {
            front.push(count - 1)
        } else {
            front
        }
    }
}

/// The hours of a plan.
pub open spec fn planned_hours(hours: Seq<LightHour>) -> Seq<int> {
    hours.map_values(|hour: LightHour| hour.hour as int)
}

/// Whether an hour of a plan has all its readings, and shows its time.
pub open spec fn plans_hour(
    hour: LightHour,
    hourly: HourlyWeather,
    start: int,
    end: int,
    utc_offset_seconds: int,
) -> bool {
    &&& places(hour.readings@) == lit_hours_of(
        hourly,
        start,
        end,
        utc_offset_seconds,
        hour.hour as int,
        hour_count(hourly),
    )
    &&& hour.time@ == crate::clock::clock_time(hour.hour as nat, 0)
}

/// The places of readings as integers.
pub open spec fn places(indexes: Seq<usize>) -> Seq<int> {
    indexes.map_values(|index: usize| index as int)
}

/// The places of the readings of a chart.
pub open spec fn reading_places(readings: Seq<LightReading>) -> Seq<int> {
    readings.map_values(|reading: LightReading| reading.index as int)
}

/// Whether a plan shows the light of a day out of the hours of an answer.
pub open spec fn plans_light(
    plan: LightPlan,
    hourly: HourlyWeather,
    history_start: int,
    day_start: int,
    day_end: int,
    solar_start: int,
    solar_end: int,
    utc_offset_seconds: int,
    average_days: int,
) -> bool {
    &&& plan.day_start == day_start
    &&& plan.day_end == day_end
    &&& plan.solar_start == solar_start
    &&& plan.solar_end == solar_end
    &&& plan.average_days == average_days
    &&& reading_places(plan.readings@) == lit_hours(hourly, day_start, day_end, hour_count(hourly))
    &&& forall|i: int|
        0 <= i < plan.readings@.len() ==> (#[trigger] plan.readings@[i]).time@
            == crate::clock::local_clock(
            hourly.time@[plan.readings@[i].index as int] as int,
            utc_offset_seconds,
        )
    &&& planned_hours(plan.hours@) == hours_with_light(
        hourly,
        history_start,
        day_end,
        utc_offset_seconds,
        24,
    )
    &&& forall|i: int|
        0 <= i < plan.hours@.len() ==> plans_hour(
            #[trigger] plan.hours@[i],
            hourly,
            history_start,
            day_end,
            utc_offset_seconds,
        )
    &&& plan.sunrise@ == crate::clock::local_clock(solar_start, utc_offset_seconds)
    &&& plan.sunset@ == crate::clock::local_clock(solar_end, utc_offset_seconds)
}

fn common_length(hourly: &HourlyWeather) -> (count: usize)
    ensures
        count == hour_count(*hourly),
        count <= hourly.time@.len(),
        count <= hourly.shortwave_radiation@.len(),
{
    if hourly.time.len() <= hourly.shortwave_radiation.len() {
        hourly.time.len()
    } else {
        hourly.shortwave_radiation.len()
    }
}

fn day_readings(hourly: &HourlyWeather, start: i64, end: i64, utc_offset_seconds: i32) -> (readings:
    Vec<LightReading>)
    ensures
        reading_places(readings@) == lit_hours(
            *hourly,
            start as int,
            end as int,
            hour_count(*hourly),
        ),
        forall|i: int|
            0 <= i < readings@.len() ==> (#[trigger] readings@[i]).time@
                == crate::clock::local_clock(
                hourly.time@[readings@[i].index as int] as int,
                utc_offset_seconds as int,
            ),
{
    let count: usize = common_length(hourly);
    let mut readings: Vec<LightReading> = Vec::new();
    let mut index: usize = 0;
    proof {
        assert(reading_places(readings@) =~= seq![]);
    }
    while index < count
        invariant
            index <= count,
            count == hour_count(*hourly),
            count <= hourly.time@.len(),
            count <= hourly.shortwave_radiation@.len(),
            reading_places(readings@) == lit_hours(*hourly, start as int, end as int, index as int),
            forall|i: int|
                0 <= i < readings@.len() ==> (#[trigger] readings@[i]).time@
                    == crate::clock::local_clock(
                    hourly.time@[readings@[i].index as int] as int,
                    utc_offset_seconds as int,
                ),
        decreases count - index,
    {
        let time: i64 = hourly.time[index];
        if time >= start && time < end && hourly.shortwave_radiation[index].is_some() {
            let ghost before = readings@;
            readings.push(LightReading { index, time: local_time(time, utc_offset_seconds) });
            proof {
                assert(reading_places(readings@) =~= reading_places(before).push(index as int));
            }
        }
        index = index + 1;
    }
    readings
}

fn hour_readings(
    hourly: &HourlyWeather,
    start: i64,
    end: i64,
    utc_offset_seconds: i32,
    hour: u16,
) -> (readings: Vec<usize>)
    ensures
        places(readings@) == lit_hours_of(
            *hourly,
            start as int,
            end as int,
            utc_offset_seconds as int,
            hour as int,
            hour_count(*hourly),
        ),
{
    let count: usize = common_length(hourly);
    let mut readings: Vec<usize> = Vec::new();
    let mut index: usize = 0;
    proof {
        assert(places(readings@) =~= seq![]);
    }
    while index < count
        invariant
            index <= count,
            count == hour_count(*hourly),
            count <= hourly.time@.len(),
            count <= hourly.shortwave_radiation@.len(),
            places(readings@) == lit_hours_of(
                *hourly,
                start as int,
                end as int,
                utc_offset_seconds as int,
                hour as int,
                index as int,
            ),
        decreases count - index,
    {
        let time: i64 = hourly.time[index];
        if time >= start && time < end && hourly.shortwave_radiation[index].is_some() {
            let seconds: i64 = local_seconds(time, utc_offset_seconds);
            if seconds / 3_600 == hour as i64 {
                let ghost before = readings@;
                readings.push(index);
                proof {
                    assert(places(readings@) =~= places(before).push(index as int));
                }
            }
        }
        index = index + 1;
    }
    readings
}

/// Plans the chart of the light of a day. There is none where the day has no reading or no
/// length.
pub fn light_history(
    hourly: &HourlyWeather,
    history_start: i64,
    day_start: i64,
    day_end: i64,
    solar_start: i64,
    solar_end: i64,
    utc_offset_seconds: i32,
    average_days: usize,
) -> (plan: Option<LightPlan>)
    ensures
        match plan {
            Some(plan) => {
                &&& lit_hours(*hourly, day_start as int, day_end as int, hour_count(*hourly)).len()
                    > 0
                &&& day_start < day_end
                &&& plans_light(
                    plan,
                    *hourly,
                    history_start as int,
                    day_start as int,
                    day_end as int,
                    solar_start as int,
                    solar_end as int,
                    utc_offset_seconds as int,
                    average_days as int,
                )
            },
            None => lit_hours(*hourly, day_start as int, day_end as int, hour_count(*hourly)).len()
                == 0 || day_end <= day_start,
        },
{
    let readings = day_readings(hourly, day_start, day_end, utc_offset_seconds);
    proof {
        assert(reading_places(readings@).len() == readings@.len());
    }
    if readings.len() == 0 || day_end <= day_start {
        return None;
    }
    let mut hours: Vec<LightHour> = Vec::new();
    let mut hour: u16 = 0;
    proof {
        assert(planned_hours(hours@) =~= seq![]);
    }
    while hour < 24
        invariant
            hour <= 24,
            planned_hours(hours@) == hours_with_light(
                *hourly,
                history_start as int,
                day_end as int,
                utc_offset_seconds as int,
                hour as int,
            ),
            forall|i: int|
                0 <= i < hours@.len() ==> plans_hour(
                    #[trigger] hours@[i],
                    *hourly,
                    history_start as int,
                    day_end as int,
                    utc_offset_seconds as int,
                ),
        decreases 24 - hour,
    {
        let averaged = hour_readings(hourly, history_start, day_end, utc_offset_seconds, hour);
        proof {
            assert(places(averaged@).len() == averaged@.len());
        }
        if averaged.len() > 0 {
            let ghost before = hours@;
            hours.push(LightHour { hour, readings: averaged, time: format_clock_time(hour, 0) });
            proof {
                assert(planned_hours(hours@) =~= planned_hours(before).push(hour as int));
            }
        }
        hour = hour + 1;
    }
    Some(
        LightPlan {
            day_start,
            day_end,
            solar_start,
            solar_end,
            average_days,
            readings,
            hours,
            sunrise: local_time(solar_start, utc_offset_seconds),
            sunset: local_time(solar_end, utc_offset_seconds),
        },
    )
}

/// The last day that had begun by a moment.
pub open spec fn current_day_index(days: Seq<i64>, time: int) -> Option<int>
    decreases days.len(),
{
    if days.len() == 0 {
        None
    } else if days.last() <= time {
        Some(days.len() - 1)
    } else {
        current_day_index(days.drop_last(), time)
    }
}

fn current_day(days: &Vec<i64>, time: i64) -> (index: Option<usize>)
    ensures
        match index {
            Some(index) => index < days@.len() && current_day_index(days@, time as int) == Some(
                index as int,
            ),
            None => current_day_index(days@, time as int) is None,
        },
{
    let mut count: usize = days.len();
    proof {
        assert(days@.take(days@.len() as int) =~= days@);
    }
    while count > 0
        invariant
            count <= days@.len(),
            current_day_index(days@, time as int) == current_day_index(
                days@.take(count as int),
                time as int,
            ),
        decreases count,
    {
        proof {
            assert(days@.take(count as int).drop_last() =~= days@.take(count - 1));
        }
        if days[count - 1] <= time {
            return Some(count - 1);
        }
        count = count - 1;
    }
    None
}

/// What a day of the answer says of the sun, in local time.
pub open spec fn solar_day(response: WeatherResponse, index: int) -> SolarForecastDay {
    let offset = response.utc_offset_seconds as int;
    SolarForecastDay {
        day: crate::clock::day_of(response.daily.time@[index] as int, offset) as i64,
        sunrise_minute: (crate::clock::seconds_of_day(
            response.daily.sunrise@[index] as int,
            offset,
        ) / 60) as u16,
        sunset_minute: (crate::clock::seconds_of_day(
            response.daily.sunset@[index] as int,
            offset,
        ) / 60) as u16,
    }
}

/// The days of an answer that have a beginning, a sunrise and a sunset.
pub open spec fn full_days(daily: DailyWeather) -> int {
    let shorter = if daily.sunrise@.len() <= daily.sunset@.len() {
        daily.sunrise@.len() as int
    } else {
        daily.sunset@.len() as int
    };
    if daily.time@.len() <= shorter {
        daily.time@.len() as int
    } else {
        shorter
    }
}

/// What the days of the answer say of the sun.
pub open spec fn solar_days(response: WeatherResponse) -> Seq<SolarForecastDay> {
    Seq::new(full_days(response.daily) as nat, |i: int| solar_day(response, i))
}

fn solar_forecast(response: &WeatherResponse) -> (days: Vec<SolarForecastDay>)
    ensures
        days@ == solar_days(*response),
{
    let offset: i32 = response.utc_offset_seconds;
    let mut days: Vec<SolarForecastDay> = Vec::new();
    let mut index: usize = 0;
    while index < response.daily.time.len() && index < response.daily.sunrise.len() && index
        < response.daily.sunset.len()
        invariant
            index <= full_days(response.daily),
            offset == response.utc_offset_seconds,
            days@ =~= solar_days(*response).take(index as int),
        decreases response.daily.time@.len() - index,
    {
        days.push(
            SolarForecastDay {
                day: local_day(response.daily.time[index], offset),
                sunrise_minute: local_minute(response.daily.sunrise[index], offset),
                sunset_minute: local_minute(response.daily.sunset[index], offset),
            },
        );
        index = index + 1;
    }
    days
}

/// What an answer of the forecast service leaves out.
pub open spec fn omitted(name: Seq<char>) -> Seq<char> {
    "Open-Meteo response omitted "@ + name
}

fn invalid_weather_data(name: &str) -> (text: String)
    ensures
        text@ == omitted(name@),
{
    let mut text = "Open-Meteo response omitted ".to_owned();
    text.append(name);
    text
}

/// What the answer lacks, where it does not say what the day of its moment is like.
pub open spec fn lacks(response: WeatherResponse) -> Option<Seq<char>> {
    match current_day_index(response.daily.time@, response.current.time as int) {
        None => Some("daily time"@),
        Some(index) => if index >= response.daily.sunrise@.len() {
            Some("sunrise"@)
        } else if index >= response.daily.sunset@.len() {
            Some("sunset"@)
        } else {
            None
        },
    }
}

/// Whether the light of the day before is shown as it should be: there is nothing to show on
/// the first day of the answer, nor where that day lacks readings.
pub open spec fn shows_previous_light(
    plan: Option<LightPlan>,
    response: WeatherResponse,
    index: int,
) -> bool {
    let daily = response.daily;
    if index == 0 {
        plan is None
    } else {
        let day_start = daily.time@[index - 1] as int;
        let day_end = daily.time@[index] as int;
        let any = lit_hours(response.hourly, day_start, day_end, hour_count(response.hourly)).len()
            > 0 && day_start < day_end;
        match plan {
            None => !any,
            Some(plan) => any && plans_light(
                plan,
                response.hourly,
                daily.time@[0] as int,
                day_start,
                day_end,
                daily.sunrise@[index - 1] as int,
                daily.sunset@[index - 1] as int,
                response.utc_offset_seconds as int,
                index,
            ),
        }
    }
}

/// Whether a snapshot holds what the answer says of its moment.
pub open spec fn snapshot_of(snapshot: WeatherSnapshot, response: WeatherResponse) -> bool {
    let current = response.current;
    let index = current_day_index(response.daily.time@, current.time as int)->0;
    &&& snapshot.time == current.time
    &&& snapshot.sunrise == response.daily.sunrise@[index]
    &&& snapshot.sunset == response.daily.sunset@[index]
    &&& snapshot.shortwave_radiation == current.shortwave_radiation
    &&& snapshot.utc_offset_seconds == response.utc_offset_seconds
    &&& snapshot.timezone_abbreviation == response.timezone_abbreviation
    &&& snapshot.temperature == current.temperature_2m
    &&& snapshot.apparent_temperature == current.apparent_temperature
    &&& snapshot.precipitation == current.precipitation
    &&& snapshot.weather_code == current.weather_code
    &&& snapshot.cloud_cover == current.cloud_cover
    &&& snapshot.is_day == (current.is_day != 0)
    &&& snapshot.solar_days@ == solar_days(response)
    &&& shows_previous_light(snapshot.previous_day_light, response, index)
}

impl WeatherResponse {
    /// The weather of the moment of the answer. The error says what the answer leaves out.
    pub fn snapshot(self) -> (result: Result<WeatherSnapshot, String>)
        ensures
            match lacks(self) {
                Some(name) => result is Err && result->Err_0@ == omitted(name),
                None => result is Ok && snapshot_of(result->Ok_0, self),
            },
    {
        let index: usize = match current_day(&self.daily.time, self.current.time) {
            Some(index) => index,
            None => return Err(invalid_weather_data("daily time")),
        };
        if index >= self.daily.sunrise.len() {
            return Err(invalid_weather_data("sunrise"));
        }
        if index >= self.daily.sunset.len() {
            return Err(invalid_weather_data("sunset"));
        }
        let previous_day_light = if index == 0 {
            None
        } else {
            light_history(
                &self.hourly,
                self.daily.time[0],
                self.daily.time[index - 1],
                self.daily.time[index],
                self.daily.sunrise[index - 1],
                self.daily.sunset[index - 1],
                self.utc_offset_seconds,
                index,
            )
        };
        let solar_days = solar_forecast(&self);
        Ok(
            WeatherSnapshot {
                time: self.current.time,
                sunrise: self.daily.sunrise[index],
                sunset: self.daily.sunset[index],
                shortwave_radiation: self.current.shortwave_radiation,
                utc_offset_seconds: self.utc_offset_seconds,
                timezone_abbreviation: self.timezone_abbreviation,
                temperature: self.current.temperature_2m,
                apparent_temperature: self.current.apparent_temperature,
                precipitation: self.current.precipitation,
                weather_code: self.current.weather_code,
                cloud_cover: self.current.cloud_cover,
                is_day: self.current.is_day != 0,
                previous_day_light,
                solar_days,
            },
        )
    }
}

/// The weather in words, by the codes of the World Meteorological Organization.
pub open spec fn condition(code: u8) -> Seq<char> {
    if code == 0 {
        "Clear sky"@
    } else if code == 1 {
        "Mainly clear"@
    } else if code == 2 {
        "Partly cloudy"@
    } else if code == 3 {
        "Overcast"@
    } else if code == 45 || code == 48 {
        "Fog"@
    } else if code == 51 || code == 53 || code == 55 {
        "Drizzle"@
    } else if code == 56 || code == 57 {
        "Freezing drizzle"@
    } else if code == 61 || code == 63 || code == 65 {
        "Rain"@
    } else if code == 66 || code == 67 {
        "Freezing rain"@
    } else if code == 71 || code == 73 || code == 75 || code == 77 {
        "Snow"@
    } else if 80 <= code <= 82 {
        "Rain showers"@
    } else if code == 85 || code == 86 {
        "Snow showers"@
    } else if code == 95 {
        "Thunderstorm"@
    } else if code == 96 || code == 99 {
        "Thunderstorm with hail"@
    } else {
        "Unknown conditions"@
    }
}

/// The weather in words.
pub fn weather_condition(code: u8) -> (text: &'static str)
    ensures
        text@ == condition(code),
{
    if code == 0 {
        "Clear sky"
    } else if code == 1 {
        "Mainly clear"
    } else if code == 2 {
        "Partly cloudy"
    } else if code == 3 {
        "Overcast"
    } else if code == 45 || code == 48 {
        "Fog"
    } else if code == 51 || code == 53 || code == 55 {
        "Drizzle"
    } else if code == 56 || code == 57 {
        "Freezing drizzle"
    } else if code == 61 || code == 63 || code == 65 {
        "Rain"
    } else if code == 66 || code == 67 {
        "Freezing rain"
    } else if code == 71 || code == 73 || code == 75 || code == 77 {
        "Snow"
    } else if 80 <= code && code <= 82 {
        "Rain showers"
    } else if code == 85 || code == 86 {
        "Snow showers"
    } else if code == 95 {
        "Thunderstorm"
    } else if code == 96 || code == 99 {
        "Thunderstorm with hail"
    } else {
        "Unknown conditions"
    }
}

/// The weather as a page shows it.
#[derive(Debug, Clone)]
pub struct WeatherStatus {
    pub local_time: String,
    pub current_minute: u16,
    pub timezone: String,
    pub condition: &'static str,
    pub is_day: bool,
    pub shortwave_radiation: Quantity,
    pub cloud_cover: u8,
    pub temperature: Quantity,
    pub apparent_temperature: Quantity,
    pub precipitation: Quantity,
    pub sunrise: String,
    pub sunset: String,
    pub previous_day_light: Option<LightPlan>,
    pub current_day: i64,
    pub solar_days: Vec<SolarForecastDay>,
}

impl WeatherSnapshot {
    /// The weather as a page shows it.
    pub fn status(self) -> (status: WeatherStatus)
        ensures
            ({
                let offset = self.utc_offset_seconds as int;
                &&& status.local_time@ == crate::clock::local_clock(self.time as int, offset)
                &&& status.current_minute == crate::clock::seconds_of_day(
                    self.time as int,
                    offset,
                ) / 60
                &&& status.timezone == self.timezone_abbreviation
                &&& status.condition@ == condition(self.weather_code)
                &&& status.is_day == self.is_day
                &&& status.shortwave_radiation == self.shortwave_radiation
                &&& status.cloud_cover == self.cloud_cover
                &&& status.temperature == self.temperature
                &&& status.apparent_temperature == self.apparent_temperature
                &&& status.precipitation == self.precipitation
                &&& status.sunrise@ == crate::clock::local_clock(self.sunrise as int, offset)
                &&& status.sunset@ == crate::clock::local_clock(self.sunset as int, offset)
                &&& status.previous_day_light == self.previous_day_light
                &&& status.current_day == crate::clock::day_of(self.time as int, offset)
                &&& status.solar_days == self.solar_days
            }),
            status.current_minute < 1_440,
    {
        let offset: i32 = self.utc_offset_seconds;
        WeatherStatus {
            local_time: local_time(self.time, offset),
            current_minute: local_minute(self.time, offset),
            timezone: self.timezone_abbreviation,
            condition: weather_condition(self.weather_code),
            is_day: self.is_day,
            shortwave_radiation: self.shortwave_radiation,
            cloud_cover: self.cloud_cover,
            temperature: self.temperature,
            apparent_temperature: self.apparent_temperature,
            precipitation: self.precipitation,
            sunrise: local_time(self.sunrise, offset),
            sunset: local_time(self.sunset, offset),
            previous_day_light: self.previous_day_light,
            current_day: local_day(self.time, offset),
            solar_days: self.solar_days,
        }
    }
}

/// Whether an hour of an answer is one of a range of time that has a reading of light.
pub open spec fn reads_light(hourly: HourlyWeather, start: int, end: int, index: int) -> bool {
    &&& 0 <= index < hourly.time@.len()
    &&& index < hourly.shortwave_radiation@.len()
    &&& start <= hourly.time@[index]
    &&& hourly.time@[index] < end
    &&& hourly.shortwave_radiation@[index] is Some
}

/// The hours with light of a range are found among its readings, in order.
pub proof fn lemma_lit_hours(hourly: HourlyWeather, start: int, end: int, count: int, index: int)
    requires
        0 <= count <= hour_count(hourly),
    ensures
        ({
            let hours = lit_hours(hourly, start, end, count);
            &&& hours.contains(index) <==> index < count && reads_light(hourly, start, end, index)
            &&& forall|i: int| 0 <= i < hours.len() ==> 0 <= #[trigger] hours[i] < count
            &&& forall|i: int, j: int|
                0 <= i < j < hours.len() ==> #[trigger] hours[i] < #[trigger] hours[j]
        }),
    decreases count,
{
    if count > 0 {
        lemma_lit_hours(hourly, start, end, count - 1, index);
        let front = lit_hours(hourly, start, end, count - 1);
        let hours = lit_hours(hourly, start, end, count);
        if lit(hourly, start, end, count - 1) {
            assert(hours == front.push(count - 1));
            assert(hours[front.len() as int] == count - 1);
            if front.contains(index) {
                let i = choose|i: int| 0 <= i < front.len() && front[i] == index;
                assert(hours[i] == index);
            }
            if hours.contains(index) && index != count - 1 {
                let i = choose|i: int| 0 <= i < hours.len() && hours[i] == index;
                assert(front[i] == index);
            }
        }
    }
}

proof fn lemma_lit_hours_of(
    hourly: HourlyWeather,
    start: int,
    end: int,
    utc_offset_seconds: int,
    hour: int,
    count: int,
    index: int,
)
    requires
        0 <= count <= hour_count(hourly),
    ensures
        lit_hours_of(hourly, start, end, utc_offset_seconds, hour, count).contains(index) <==> index
            < count && reads_light(hourly, start, end, index) && ((hourly.time@[index]
            + utc_offset_seconds) % 86_400) / 3_600 == hour,
    decreases count,
{
    if count > 0 {
        lemma_lit_hours_of(hourly, start, end, utc_offset_seconds, hour, count - 1, index);
        let front = lit_hours_of(hourly, start, end, utc_offset_seconds, hour, count - 1);
        let hours = lit_hours_of(hourly, start, end, utc_offset_seconds, hour, count);
        if lit(hourly, start, end, count - 1) && hour_of_day(hourly, utc_offset_seconds, count - 1)
            == hour {
            assert(hours == front.push(count - 1));
            assert(hours[front.len() as int] == count - 1);
            if front.contains(index) {
                let i = choose|i: int| 0 <= i < front.len() && front[i] == index;
                assert(hours[i] == index);
            }
            if hours.contains(index) && index != count - 1 {
                let i = choose|i: int| 0 <= i < hours.len() && hours[i] == index;
                assert(front[i] == index);
            }
        }
    }
}

proof fn lemma_hours_with_light(
    hourly: HourlyWeather,
    start: int,
    end: int,
    utc_offset_seconds: int,
    count: int,
    hour: int,
)
    requires
        0 <= count,
    ensures
        ({
            let hours = hours_with_light(hourly, start, end, utc_offset_seconds, count);
            &&& hours.contains(hour) <==> 0 <= hour < count && lit_hours_of(
                hourly,
                start,
                end,
                utc_offset_seconds,
                hour,
                hour_count(hourly),
            ).len() > 0
            &&& forall|i: int| 0 <= i < hours.len() ==> 0 <= #[trigger] hours[i] < count
            &&& forall|i: int, j: int|
                0 <= i < j < hours.len() ==> #[trigger] hours[i] < #[trigger] hours[j]
        }),
    decreases count,
{
    if count > 0 {
        lemma_hours_with_light(hourly, start, end, utc_offset_seconds, count - 1, hour);
        let front = hours_with_light(hourly, start, end, utc_offset_seconds, count - 1);
        let hours = hours_with_light(hourly, start, end, utc_offset_seconds, count);
        if hours != front {
            assert(hours == front.push(count - 1));
            assert(hours[front.len() as int] == count - 1);
            if front.contains(hour) {
                let i = choose|i: int| 0 <= i < front.len() && front[i] == hour;
                assert(hours[i] == hour);
            }
            if hours.contains(hour) && hour != count - 1 {
                let i = choose|i: int| 0 <= i < hours.len() && hours[i] == hour;
                assert(front[i] == hour);
            }
        }
    }
}

/// A chart of light shows exactly the readings of its day, in the order of the answer.
pub proof fn law_charts_show_the_light_of_their_day(
    plan: LightPlan,
    hourly: HourlyWeather,
    history_start: int,
    day_start: int,
    day_end: int,
    solar_start: int,
    solar_end: int,
    utc_offset_seconds: int,
    average_days: int,
    index: int,
)
    requires
        plans_light(
            plan,
            hourly,
            history_start,
            day_start,
            day_end,
            solar_start,
            solar_end,
            utc_offset_seconds,
            average_days,
        ),
    ensures
        (exists|i: int|
            0 <= i < plan.readings@.len() && (#[trigger] plan.readings@[i]).index == index)
            <==> reads_light(hourly, day_start, day_end, index),
        forall|i: int, j: int|
            0 <= i < j < plan.readings@.len() ==> (#[trigger] plan.readings@[i]).index < (
            #[trigger] plan.readings@[j]).index,
        forall|i: int|
            0 <= i < plan.readings@.len() ==> (#[trigger] plan.readings@[i]).time@
                == crate::clock::minute_clock(
                (((hourly.time@[plan.readings@[i].index as int] + utc_offset_seconds) % 86_400)
                    / 60) as nat,
            ),
{
    let shown = reading_places(plan.readings@);
    lemma_lit_hours(hourly, day_start, day_end, hour_count(hourly), index);
    assert forall|i: int| 0 <= i < plan.readings@.len() implies shown[i] == (
    #[trigger] plan.readings@[i]).index by {}
    if shown.contains(index) {
        let i = choose|i: int| 0 <= i < shown.len() && shown[i] == index;
        assert(plan.readings@[i].index == index);
    }
    if exists|i: int|
        0 <= i < plan.readings@.len() && (#[trigger] plan.readings@[i]).index == index {
        let i = choose|i: int|
            0 <= i < plan.readings@.len() && (#[trigger] plan.readings@[i]).index == index;
        assert(shown[i] == index);
    }
}

/// The average of an hour of the day is taken from exactly the readings of that local hour, from
/// the beginning of the history to the end of the day.
pub proof fn law_averages_take_every_reading(
    plan: LightPlan,
    hourly: HourlyWeather,
    history_start: int,
    day_start: int,
    day_end: int,
    solar_start: int,
    solar_end: int,
    utc_offset_seconds: int,
    average_days: int,
    index: int,
)
    requires
        plans_light(
            plan,
            hourly,
            history_start,
            day_start,
            day_end,
            solar_start,
            solar_end,
            utc_offset_seconds,
            average_days,
        ),
    ensures
        reads_light(hourly, history_start, day_end, index) ==> exists|h: int|
            0 <= h < plan.hours@.len() && (#[trigger] plan.hours@[h]).hour == ((hourly.time@[index]
                + utc_offset_seconds) % 86_400) / 3_600,
        forall|h: int|
            0 <= h < plan.hours@.len() ==> ((exists|i: int|
                0 <= i < (#[trigger] plan.hours@[h]).readings@.len()
                    && #[trigger] plan.hours@[h].readings@[i] == index) <==> reads_light(
                hourly,
                history_start,
                day_end,
                index,
            ) && ((hourly.time@[index] + utc_offset_seconds) % 86_400) / 3_600
                == plan.hours@[h].hour),
        forall|h: int, g: int|
            0 <= h < g < plan.hours@.len() ==> (#[trigger] plan.hours@[h]).hour < (
            #[trigger] plan.hours@[g]).hour,
{
    let planned = planned_hours(plan.hours@);
    let count = hour_count(hourly);
    lemma_hours_with_light(hourly, history_start, day_end, utc_offset_seconds, 24, 0);
    assert forall|h: int| 0 <= h < plan.hours@.len() implies planned[h] == (
    #[trigger] plan.hours@[h]).hour by {}
    assert forall|h: int| 0 <= h < plan.hours@.len() implies ((exists|i: int|
        0 <= i < (#[trigger] plan.hours@[h]).readings@.len()
            && #[trigger] plan.hours@[h].readings@[i] == index) <==> reads_light(
        hourly,
        history_start,
        day_end,
        index,
    ) && ((hourly.time@[index] + utc_offset_seconds) % 86_400) / 3_600 == plan.hours@[h].hour) by {
        let hour = plan.hours@[h];
        assert(plans_hour(hour, hourly, history_start, day_end, utc_offset_seconds));
        lemma_lit_hours_of(
            hourly,
            history_start,
            day_end,
            utc_offset_seconds,
            hour.hour as int,
            count,
            index,
        );
        let all = places(hour.readings@);
        if all.contains(index) {
            let i = choose|i: int| 0 <= i < all.len() && all[i] == index;
            assert(hour.readings@[i] == index);
        }
        if exists|i: int|
            0 <= i < hour.readings@.len() && #[trigger] hour.readings@[i] == index {
            let i = choose|i: int|
                0 <= i < hour.readings@.len() && #[trigger] hour.readings@[i] == index;
            assert(all[i] == index);
        }
    }
    if reads_light(hourly, history_start, day_end, index) {
        let hour = ((hourly.time@[index] + utc_offset_seconds) % 86_400) / 3_600;
        lemma_lit_hours_of(
            hourly,
            history_start,
            day_end,
            utc_offset_seconds,
            hour,
            count,
            index,
        );
        lemma_hours_with_light(hourly, history_start, day_end, utc_offset_seconds, 24, hour);
        let h = choose|h: int| 0 <= h < planned.len() && planned[h] == hour;
        assert(plan.hours@[h].hour == hour);
    }
}

/// A code of the World Meteorological Organization is shown in the words for it. Codes of one kind
/// of weather, whatever its strength, share their words, and no other code has them.
pub proof fn law_conditions_are_named(code: u8, text: Seq<char>)
    requires
        text == condition(code),
    ensures
        text == "Clear sky"@ <==> code == 0,
        text == "Mainly clear"@ <==> code == 1,
        text == "Partly cloudy"@ <==> code == 2,
        text == "Overcast"@ <==> code == 3,
        text == "Fog"@ <==> code == 45 || code == 48,
        text == "Drizzle"@ <==> code == 51 || code == 53 || code == 55,
        text == "Freezing drizzle"@ <==> code == 56 || code == 57,
        text == "Rain"@ <==> code == 61 || code == 63 || code == 65,
        text == "Freezing rain"@ <==> code == 66 || code == 67,
        text == "Snow"@ <==> code == 71 || code == 73 || code == 75 || code == 77,
        text == "Rain showers"@ <==> code == 80 || code == 81 || code == 82,
        text == "Snow showers"@ <==> code == 85 || code == 86,
        text == "Thunderstorm"@ <==> code == 95,
        text == "Thunderstorm with hail"@ <==> code == 96 || code == 99,
{
    reveal_strlit("Clear sky");
    reveal_strlit("Mainly clear");
    reveal_strlit("Partly cloudy");
    reveal_strlit("Overcast");
    reveal_strlit("Fog");
    reveal_strlit("Drizzle");
    reveal_strlit("Freezing drizzle");
    reveal_strlit("Rain");
    reveal_strlit("Freezing rain");
    reveal_strlit("Snow");
    reveal_strlit("Rain showers");
    reveal_strlit("Snow showers");
    reveal_strlit("Thunderstorm");
    reveal_strlit("Thunderstorm with hail");
    reveal_strlit("Unknown conditions");
    assert("Clear sky"@.len() == 9 && "Clear sky"@[0] == 'C');
    assert("Mainly clear"@.len() == 12 && "Mainly clear"@[0] == 'M');
    assert("Partly cloudy"@.len() == 13 && "Partly cloudy"@[0] == 'P');
    assert("Overcast"@.len() == 8 && "Overcast"@[0] == 'O');
    assert("Fog"@.len() == 3 && "Fog"@[0] == 'F');
    assert("Drizzle"@.len() == 7 && "Drizzle"@[0] == 'D');
    assert("Freezing drizzle"@.len() == 16 && "Freezing drizzle"@[0] == 'F');
    assert("Rain"@.len() == 4 && "Rain"@[0] == 'R');
    assert("Freezing rain"@.len() == 13 && "Freezing rain"@[0] == 'F');
    assert("Snow"@.len() == 4 && "Snow"@[0] == 'S');
    assert("Rain showers"@.len() == 12 && "Rain showers"@[0] == 'R');
    assert("Snow showers"@.len() == 12 && "Snow showers"@[0] == 'S');
    assert("Thunderstorm"@.len() == 12 && "Thunderstorm"@[0] == 'T');
    assert("Thunderstorm with hail"@.len() == 22 && "Thunderstorm with hail"@[0] == 'T');
    assert("Unknown conditions"@.len() == 18 && "Unknown conditions"@[0] == 'U');
}

} // verus!
