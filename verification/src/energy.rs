//! Readings of a plug's energy meter, whatever unit its firmware counts in.
use crate::error::Error;
use crate::quantity::Quantity;
use vstd::prelude::*;
use vstd::string::*;

verus! {

/// A measurement in its unit, or in thousandths of it.
#[derive(Debug, Clone, Copy, PartialEq, Eq, Structural)]
pub enum Measure {
    Whole(Quantity),
    Thousandths(Quantity),
}

/// The measurement out of a value in its unit, which counts first, and one in thousandths.
pub open spec fn measured(value: Option<Quantity>, scaled: Option<Quantity>) -> Option<Measure> {
    match (value, scaled) {
        (Some(value), _) => Some(Measure::Whole(value)),
        (None, Some(scaled)) => Some(Measure::Thousandths(scaled)),
        (None, None) => None,
    }
}

/// The first of two values that is there.
pub open spec fn either(first: Option<Quantity>, second: Option<Quantity>) -> Option<Quantity> {
    if first is Some {
        first
    } else {
        second
    }
}

/// The text of the error that an answer lacks a measurement.
pub open spec fn omission(field: Seq<char>) -> Seq<char> {
    "response omitted "@ + field
}

/// The measurement out of a value in its unit and one in thousandths, one of which must be there.
pub fn normalized_value(value: Option<Quantity>, scaled: Option<Quantity>, field: &str) -> (measure:
    Result<Measure, Error>)
    ensures
        match measured(value, scaled) {
            Some(expected) => measure == Ok::<Measure, Error>(expected),
            None => measure is Err && crate::error::invalid_response(
                measure->Err_0,
                omission(field@),
            ),
        },
{
    match (value, scaled) {
        (Some(value), _) => Ok(Measure::Whole(value)),
        (None, Some(scaled)) => Ok(Measure::Thousandths(scaled)),
        (None, None) => {
            let mut text = "response omitted ".to_owned();
            text.append(field);
            Err(Error::InvalidResponse(text))
        },
    }
}

/// What a plug answers about what it draws now.
#[derive(Debug, Clone, Copy)]
pub struct RealtimeEnergyResponse {
    pub current: Option<Quantity>,
    pub current_ma: Option<Quantity>,
    pub voltage: Option<Quantity>,
    pub voltage_mv: Option<Quantity>,
    pub power: Option<Quantity>,
    pub power_mw: Option<Quantity>,
    pub total: Option<Quantity>,
    pub total_wh: Option<Quantity>,
    pub energy: Option<Quantity>,
    pub energy_wh: Option<Quantity>,
}

/// What a plug draws now, and what it drew in all.
#[derive(Debug, Clone, Copy, PartialEq, Eq, Structural)]
pub struct EnergyReading {
    pub current_amps: Measure,
    pub voltage_volts: Measure,
    pub power_watts: Measure,
    pub total_kwh: Measure,
}

/// The total that an answer gives, under the one name or the other.
pub open spec fn total_of(response: RealtimeEnergyResponse) -> Option<Measure> {
    measured(
        either(response.total, response.energy),
        either(response.total_wh, response.energy_wh),
    )
}

/// The first measurement that an answer lacks.
pub open spec fn first_omission(response: RealtimeEnergyResponse) -> Option<Seq<char>> {
    if measured(response.current, response.current_ma) is None {
        Some("current"@)
    } else if measured(response.voltage, response.voltage_mv) is None {
        Some("voltage"@)
    } else if measured(response.power, response.power_mw) is None {
        Some("power"@)
    } else if total_of(response) is None {
        Some("total energy"@)
    } else {
        None
    }
}

fn first_of(first: Option<Quantity>, second: Option<Quantity>) -> (value: Option<Quantity>)
    ensures
        value == either(first, second),
{
    match first {
        Some(_) => first,
        None => second,
    }
}

/// The reading that an answer gives, which must hold every measurement.
pub fn parse_realtime_energy(response: RealtimeEnergyResponse) -> (reading: Result<
    EnergyReading,
    Error,
>)
    ensures
        match first_omission(response) {
            Some(field) => reading is Err && crate::error::invalid_response(
                reading->Err_0,
                omission(field),
            ),
            None => reading == Ok::<EnergyReading, Error>(
                EnergyReading {
                    current_amps: measured(response.current, response.current_ma)->0,
                    voltage_volts: measured(response.voltage, response.voltage_mv)->0,
                    power_watts: measured(response.power, response.power_mw)->0,
                    total_kwh: total_of(response)->0,
                },
            ),
        },
{
    let current_amps = match normalized_value(response.current, response.current_ma, "current") {
        Ok(measure) => measure,
        Err(error) => return Err(error),
    };
    let voltage_volts = match normalized_value(response.voltage, response.voltage_mv, "voltage") {
        Ok(measure) => measure,
        Err(error) => return Err(error),
    };
    let power_watts = match normalized_value(response.power, response.power_mw, "power") {
        Ok(measure) => measure,
        Err(error) => return Err(error),
    };
    let total_kwh = match normalized_value(
        first_of(response.total, response.energy),
        first_of(response.total_wh, response.energy_wh),
        "total energy",
    ) {
        Ok(measure) => measure,
        Err(error) => return Err(error),
    };
    Ok(EnergyReading { current_amps, voltage_volts, power_watts, total_kwh })
}

/// What a plug answers about one day.
#[derive(Debug, Clone, Copy)]
pub struct DayStatistic {
    pub year: u16,
    pub month: u8,
    pub day: u8,
    pub energy: Option<Quantity>,
    pub energy_wh: Option<Quantity>,
}

/// What a plug drew on one day.
#[derive(Debug, Clone, Copy, PartialEq, Eq, Structural)]
pub struct DailyEnergy {
    pub year: u16,
    pub month: u8,
    pub day: u8,
    pub energy_kwh: Measure,
}

/// What a plug answers about one month.
#[derive(Debug, Clone, Copy)]
pub struct MonthStatistic {
    pub year: u16,
    pub month: u8,
    pub energy: Option<Quantity>,
    pub energy_wh: Option<Quantity>,
}

/// What a plug drew in one month.
#[derive(Debug, Clone, Copy, PartialEq, Eq, Structural)]
pub struct MonthlyEnergy {
    pub year: u16,
    pub month: u8,
    pub energy_kwh: Measure,
}

/// What a plug drew on a day that its answer measures.
pub open spec fn daily(statistic: DayStatistic) -> DailyEnergy {
    DailyEnergy {
        year: statistic.year,
        month: statistic.month,
        day: statistic.day,
        energy_kwh: measured(statistic.energy, statistic.energy_wh)->0,
    }
}

/// What a plug drew in a month that its answer measures.
pub open spec fn monthly(statistic: MonthStatistic) -> MonthlyEnergy {
    MonthlyEnergy {
        year: statistic.year,
        month: statistic.month,
        energy_kwh: measured(statistic.energy, statistic.energy_wh)->0,
    }
}

/// Whether every day is measured.
pub open spec fn days_measured(days: Seq<DayStatistic>) -> bool {
    forall|i: int|
        0 <= i < days.len() ==> measured((#[trigger] days[i]).energy, days[i].energy_wh) is Some
}

/// Whether every month is measured.
pub open spec fn months_measured(months: Seq<MonthStatistic>) -> bool {
    forall|i: int|
        0 <= i < months.len() ==> measured(
            (#[trigger] months[i]).energy,
            months[i].energy_wh,
        ) is Some
}

/// What a plug drew on each day of its answer, which must measure every one.
pub fn parse_daily_energy(day_list: &Vec<DayStatistic>) -> (days: Result<Vec<DailyEnergy>, Error>)
    ensures
        if days_measured(day_list@) {
            days is Ok && days->Ok_0@ == day_list@.map_values(|day: DayStatistic| daily(day))
        } else {
            days is Err && crate::error::invalid_response(
                days->Err_0,
                omission("daily energy"@),
            )
        },
{
    let mut days: Vec<DailyEnergy> = Vec::new();
    let mut index: usize = 0;
    while index < day_list.len()
        invariant
            index <= day_list@.len(),
            days@.len() == index,
            forall|i: int|
                #![trigger day_list@[i]]
                0 <= i < index ==> days@[i] == daily(day_list@[i]) && measured(
                    day_list@[i].energy,
                    day_list@[i].energy_wh,
                ) is Some,
        decreases day_list@.len() - index,
    {
        let statistic = day_list[index];
        match normalized_value(statistic.energy, statistic.energy_wh, "daily energy") {
            Ok(energy_kwh) => days.push(
                DailyEnergy {
                    year: statistic.year,
                    month: statistic.month,
                    day: statistic.day,
                    energy_kwh,
                },
            ),
            Err(error) => return Err(error),
        }
        index = index + 1;
    }
    proof {
        assert(days@ =~= day_list@.map_values(|day: DayStatistic| daily(day)));
    }
    Ok(days)
}

/// What a plug drew in each month of its answer, which must measure every one.
pub fn parse_monthly_energy(month_list: &Vec<MonthStatistic>) -> (months: Result<
    Vec<MonthlyEnergy>,
    Error,
>)
    ensures
        if months_measured(month_list@) {
            months is Ok && months->Ok_0@ == month_list@.map_values(
                |month: MonthStatistic| monthly(month),
            )
        } else {
            months is Err && crate::error::invalid_response(
                months->Err_0,
                omission("monthly energy"@),
            )
        },
{
    let mut months: Vec<MonthlyEnergy> = Vec::new();
    let mut index: usize = 0;
    while index < month_list.len()
        invariant
            index <= month_list@.len(),
            months@.len() == index,
            forall|i: int|
                #![trigger month_list@[i]]
                0 <= i < index ==> months@[i] == monthly(month_list@[i]) && measured(
                    month_list@[i].energy,
                    month_list@[i].energy_wh,
                ) is Some,
        decreases month_list@.len() - index,
    {
        let statistic = month_list[index];
        match normalized_value(statistic.energy, statistic.energy_wh, "monthly energy") {
            Ok(energy_kwh) => months.push(
                MonthlyEnergy { year: statistic.year, month: statistic.month, energy_kwh },
            ),
            Err(error) => return Err(error),
        }
        index = index + 1;
    }
    proof {
        assert(months@ =~= month_list@.map_values(|month: MonthStatistic| monthly(month)));
    }
    Ok(months)
}

/// A measurement is the value in its unit where the answer has it, whatever it has in thousandths;
/// it is the value in thousandths where the answer has only that.
pub proof fn law_units_are_kept(
    value: Option<Quantity>,
    scaled: Option<Quantity>,
    measure: Option<Measure>,
)
    requires
        measure == measured(value, scaled),
    ensures
        value is Some ==> measure == Some(Measure::Whole(value->0)),
        value is None && scaled is Some ==> measure == Some(Measure::Thousandths(scaled->0)),
        measure is None <==> value is None && scaled is None,
{
}

/// A reading is whole where each of the four measurements is there in one unit or the other, and
/// each keeps its own value. The total goes by either of its names, the one of older plugs first.
pub proof fn law_readings_keep_their_values(
    response: RealtimeEnergyResponse,
    result: Result<EnergyReading, Error>,
)
    requires
        match first_omission(response) {
            None => result == Ok::<EnergyReading, Error>(
                EnergyReading {
                    current_amps: measured(response.current, response.current_ma)->0,
                    voltage_volts: measured(response.voltage, response.voltage_mv)->0,
                    power_watts: measured(response.power, response.power_mw)->0,
                    total_kwh: total_of(response)->0,
                },
            ),
            Some(field) => result is Err && crate::error::invalid_response(
                result->Err_0,
                omission(field),
            ),
        },
    ensures
        result is Ok <==> {
            &&& response.current is Some || response.current_ma is Some
            &&& response.voltage is Some || response.voltage_mv is Some
            &&& response.power is Some || response.power_mw is Some
            &&& response.total is Some || response.energy is Some || response.total_wh is Some
                || response.energy_wh is Some
        },
        result matches Ok(reading) ==> {
            &&& response.current is Some ==> reading.current_amps == Measure::Whole(
                response.current->0,
            )
            &&& response.current is None ==> reading.current_amps == Measure::Thousandths(
                response.current_ma->0,
            )
            &&& response.voltage is Some ==> reading.voltage_volts == Measure::Whole(
                response.voltage->0,
            )
            &&& response.voltage is None ==> reading.voltage_volts == Measure::Thousandths(
                response.voltage_mv->0,
            )
            &&& response.power is Some ==> reading.power_watts == Measure::Whole(response.power->0)
            &&& response.power is None ==> reading.power_watts == Measure::Thousandths(
                response.power_mw->0,
            )
            &&& response.total is Some ==> reading.total_kwh == Measure::Whole(response.total->0)
            &&& response.total is None && response.energy is Some ==> reading.total_kwh
                == Measure::Whole(response.energy->0)
            &&& response.total is None && response.energy is None && response.total_wh is Some
                ==> reading.total_kwh == Measure::Thousandths(response.total_wh->0)
            &&& response.total is None && response.energy is None && response.total_wh is None
                ==> reading.total_kwh == Measure::Thousandths(response.energy_wh->0)
        },
{
}

/// Statistics keep their order, their dates and their values.
pub proof fn law_statistics_keep_their_dates(
    days: Seq<DayStatistic>,
    months: Seq<MonthStatistic>,
    i: int,
)
    requires
        0 <= i < days.len() && i < months.len(),
        days_measured(days) && months_measured(months),
    ensures
        ({
            let day = days.map_values(|day: DayStatistic| daily(day))[i];
            let month = months.map_values(|month: MonthStatistic| monthly(month))[i];
            &&& day.year == days[i].year && day.month == days[i].month && day.day == days[i].day
            &&& days[i].energy is Some ==> day.energy_kwh == Measure::Whole(days[i].energy->0)
            &&& days[i].energy is None ==> day.energy_kwh == Measure::Thousandths(
                days[i].energy_wh->0,
            )
            &&& month.year == months[i].year && month.month == months[i].month
            &&& months[i].energy is Some ==> month.energy_kwh == Measure::Whole(
                months[i].energy->0,
            )
            &&& months[i].energy is None ==> month.energy_kwh == Measure::Thousandths(
                months[i].energy_wh->0,
            )
        }),
{
    assert(measured(days[i].energy, days[i].energy_wh) is Some);
    assert(measured(months[i].energy, months[i].energy_wh) is Some);
}

/// An answer that lacks measurements is refused for the first that it lacks: the current, the
/// voltage, the power, then the total.
pub proof fn law_first_omission_is_named(response: RealtimeEnergyResponse)
    ensures
        ({
            let current = response.current is Some || response.current_ma is Some;
            let voltage = response.voltage is Some || response.voltage_mv is Some;
            let power = response.power is Some || response.power_mw is Some;
            let total = response.total is Some || response.energy is Some || response.total_wh
                is Some || response.energy_wh is Some;
            &&& !current ==> first_omission(response) == Some("current"@)
            &&& current && !voltage ==> first_omission(response) == Some("voltage"@)
            &&& current && voltage && !power ==> first_omission(response) == Some("power"@)
            &&& current && voltage && power && !total ==> first_omission(response) == Some(
                "total energy"@,
            )
            &&& current && voltage && power && total ==> first_omission(response) is None
        }),
        omission("current"@) == "response omitted "@ + "current"@,
{
}

} // verus!
