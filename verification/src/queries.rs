//! The weather queries: which SQL statement each one runs and which row
//! shape it aggregates into. Executing the statement against a database
//! belongs to the storage layer.

use vstd::prelude::*;

verus! {

/// The queries the weather endpoint can run.
#[derive(Clone, Copy, Debug)]
pub enum Queries {
    /// The ten years with the highest temperature total.
    GetTopTenHottestYears,
    /// The ten years with the lowest temperature total.
    GetTopTenColdestYears,
    /// The ten months with the highest temperature total.
    GetTopTenHottestMonths,
    /// The ten months with the lowest temperature total.
    GetTopTenColdestMonths,
}

/// The SQL text each query runs.
pub open spec fn statement_view(q: Queries) -> Seq<char> {
    match q {
        Queries::GetTopTenHottestYears => "
    SELECT cast(strftime('%Y', date) as int) as theyear,
            sum(tmax) as total
        FROM nyc_weather
        WHERE tmax <> 'TMAX'
        GROUP BY theyear
        ORDER BY total DESC LIMIT 10"@,
        Queries::GetTopTenColdestYears => "
        SELECT cast(strftime('%Y', date) as int) as theyear,
                sum(tmax) as total
        FROM nyc_weather
        WHERE tmax <> 'TMAX'
        GROUP BY theyear
        ORDER BY total ASC LIMIT 10"@,
        Queries::GetTopTenHottestMonths => "SELECT cast(strftime('%Y', date) as int) as theyear,
                cast(strftime('%m', date) as int) as themonth,
                sum(tmax) as total
        FROM nyc_weather
        WHERE tmax <> 'TMAX'
        GROUP BY theyear, themonth
        ORDER BY total DESC LIMIT 10"@,
        Queries::GetTopTenColdestMonths => "SELECT cast(strftime('%Y', date) as int) as theyear,
                cast(strftime('%m', date) as int) as themonth,
                sum(tmax) as total
        FROM nyc_weather
        WHERE tmax <> 'TMAX'
        GROUP BY theyear, themonth
        ORDER BY total ASC LIMIT 10"@,
    }
}

/// Whether the query aggregates rows by year alone; the others aggregate
/// by year and month.
pub open spec fn aggregates_by_year(q: Queries) -> bool {
    match q {
        Queries::GetTopTenHottestYears => true,
        Queries::GetTopTenColdestYears => true,
        Queries::GetTopTenHottestMonths => false,
        Queries::GetTopTenColdestMonths => false,
    }
}

impl Queries {
    /// The SQL statement this query runs.
    pub fn statement(&self) -> (s: &'static str)
        ensures
            s@ == statement_view(*self),
    {
        match self {
            Queries::GetTopTenHottestYears => "
    SELECT cast(strftime('%Y', date) as int) as theyear,
            sum(tmax) as total
        FROM nyc_weather
        WHERE tmax <> 'TMAX'
        GROUP BY theyear
        ORDER BY total DESC LIMIT 10",
            Queries::GetTopTenColdestYears => "
        SELECT cast(strftime('%Y', date) as int) as theyear,
                sum(tmax) as total
        FROM nyc_weather
        WHERE tmax <> 'TMAX'
        GROUP BY theyear
        ORDER BY total ASC LIMIT 10",
            Queries::GetTopTenHottestMonths => "SELECT cast(strftime('%Y', date) as int) as theyear,
                cast(strftime('%m', date) as int) as themonth,
                sum(tmax) as total
        FROM nyc_weather
        WHERE tmax <> 'TMAX'
        GROUP BY theyear, themonth
        ORDER BY total DESC LIMIT 10",
            Queries::GetTopTenColdestMonths => "SELECT cast(strftime('%Y', date) as int) as theyear,
                cast(strftime('%m', date) as int) as themonth,
                sum(tmax) as total
        FROM nyc_weather
        WHERE tmax <> 'TMAX'
        GROUP BY theyear, themonth
        ORDER BY total ASC LIMIT 10",
        }
    }

    /// Whether this query aggregates by year alone.
    pub fn is_annual(&self) -> (b: bool)
        ensures
            b == aggregates_by_year(*self),
    {
        match self {
            Queries::GetTopTenHottestYears => true,
            Queries::GetTopTenColdestYears => true,
            Queries::GetTopTenHottestMonths => false,
            Queries::GetTopTenColdestMonths => false,
        }
    }
}

} // verus!
