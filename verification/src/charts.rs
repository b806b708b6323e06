//! What a chart holds: its title, its axes, and its series of points. The
//! value of a point is kept as the text of a number; drawing the chart is
//! left to the caller.

use crate::grouping::{points_view, SeriesPoint, SeriesPointView};
use vstd::prelude::*;
use vstd::string::*;

verus! {

/// One line of a chart.
#[derive(Debug, Clone)]
pub struct TimeSeries {
    /// The name under which the legend lists the series.
    pub name: String,
    /// The unit of the values as drawn.
    pub unit: String,
    /// What a value, as stored, is divided by to give the value as drawn.
    pub divisor: u64,
    /// The points, in the order in which they are joined.
    pub points: Vec<SeriesPoint>,
}

/// A series in mathematical terms.
pub struct TimeSeriesView {
    pub name: Seq<char>,
    pub unit: Seq<char>,
    pub divisor: u64,
    pub points: Seq<SeriesPointView>,
}

impl View for TimeSeries {
    type V = TimeSeriesView;

    open spec fn view(&self) -> TimeSeriesView {
        TimeSeriesView {
            name: self.name@,
            unit: self.unit@,
            divisor: self.divisor,
            points: points_view(self.points@),
        }
    }
}

impl TimeSeries {
    /// A series without points, whose values are drawn as stored.
    pub fn new(name: &str) -> (series: TimeSeries)
        ensures
            series@ == (TimeSeriesView {
                name: name@,
                unit: Seq::empty(),
                divisor: 1,
                points: Seq::empty(),
            }),
    {
        let series = TimeSeries {
            name: String::from_str(name),
            unit: String::new(),
            divisor: 1,
            points: Vec::new(),
        };
        assert(points_view(series.points@) =~= Seq::<SeriesPointView>::empty());
        series
    }

    /// The series with its unit set.
    pub fn with_unit(self, unit: &str) -> (series: TimeSeries)
        ensures
            series@ == (TimeSeriesView { unit: unit@, ..self@ }),
    {
        TimeSeries {
            name: self.name,
            unit: String::from_str(unit),
            divisor: self.divisor,
            points: self.points,
        }
    }

    /// Adds a point behind the points that the series has.
    pub fn add_point(&mut self, timestamp: i64, value: &str)
        ensures
            final(self)@ == (TimeSeriesView {
                points: old(self)@.points.push(SeriesPointView { timestamp, value: value@ }),
                ..old(self)@
            }),
    {
        let point = SeriesPoint { timestamp, value: String::from_str(value) };
        proof {
            assert(points_view(self.points@.push(point)) =~= points_view(self.points@).push(
                point@,
            ));
        }
        self.points.push(point);
    }

    /// Whether the series has no point.
    pub fn is_empty(&self) -> (empty: bool)
        ensures
            empty == (self@.points.len() == 0),
    {
        self.points.len() == 0
    }
}

/// The data of one chart.
#[derive(Debug, Clone)]
pub struct ChartData {
    pub title: String,
    pub x_label: String,
    pub y_label: String,
    pub series: Vec<TimeSeries>,
}

/// The series of a chart, in mathematical terms.
pub open spec fn series_view(series: Seq<TimeSeries>) -> Seq<TimeSeriesView> {
    series.map_values(|s: TimeSeries| s@)
}

/// The data of a chart in mathematical terms.
pub struct ChartDataView {
    pub title: Seq<char>,
    pub x_label: Seq<char>,
    pub y_label: Seq<char>,
    pub series: Seq<TimeSeriesView>,
}

impl View for ChartData {
    type V = ChartDataView;

    open spec fn view(&self) -> ChartDataView {
        ChartDataView {
            title: self.title@,
            x_label: self.x_label@,
            y_label: self.y_label@,
            series: series_view(self.series@),
        }
    }
}

impl ChartDataView {
    /// Whether the chart has nothing to draw: no series has a point.
    pub open spec fn is_empty(self) -> bool {
        forall|i: int| 0 <= i < self.series.len() ==> (#[trigger] self.series[i]).points.len() == 0
    }
}

impl ChartData {
    /// A chart without series and without labels on its axes.
    pub fn new(title: &str) -> (chart: ChartData)
        ensures
            chart@ == (ChartDataView {
                title: title@,
                x_label: Seq::empty(),
                y_label: Seq::empty(),
                series: Seq::empty(),
            }),
    {
        let chart = ChartData {
            title: String::from_str(title),
            x_label: String::new(),
            y_label: String::new(),
            series: Vec::new(),
        };
        assert(series_view(chart.series@) =~= Seq::<TimeSeriesView>::empty());
        chart
    }

    /// The chart with its axes labelled.
    pub fn with_labels(self, x_label: &str, y_label: &str) -> (chart: ChartData)
        ensures
            chart@ == (ChartDataView { x_label: x_label@, y_label: y_label@, ..self@ }),
    {
        ChartData {
            title: self.title,
            x_label: String::from_str(x_label),
            y_label: String::from_str(y_label),
            series: self.series,
        }
    }

    /// Adds a series behind the series that the chart has.
    pub fn add_series(&mut self, series: TimeSeries)
        ensures
            final(self)@ == (ChartDataView {
                series: old(self)@.series.push(series@),
                ..old(self)@
            }),
    {
        proof {
            assert(series_view(self.series@.push(series)) =~= series_view(self.series@).push(
                series@,
            ));
        }
        self.series.push(series);
    }

    /// Whether the chart has nothing to draw.
    pub fn is_empty(&self) -> (empty: bool)
        ensures
            empty == self@.is_empty(),
    {
        let mut i: usize = 0;
        while i < self.series.len()
            invariant
                0 <= i <= self.series@.len(),
                forall|k: int| 0 <= k < i ==> (#[trigger] self@.series[k]).points.len() == 0,
            decreases self.series@.len() - i,
        {
            if !self.series[i].is_empty() {
                assert(self@.series[i as int] == self.series@[i as int]@);
                return false;
            }
            i += 1;
        }
        true
    }
}

/// Size and furnishings of a chart.
#[derive(Debug, Clone, Copy, PartialEq, Eq, Structural)]
pub struct TimeSeriesChart {
    pub width: u32,
    pub height: u32,
    pub show_grid: bool,
    pub show_legend: bool,
}

impl TimeSeriesChart {
    /// A chart of the given size, with grid and legend.
    pub fn new(width: u32, height: u32) -> (chart: TimeSeriesChart)
        ensures
            chart == (TimeSeriesChart { width, height, show_grid: true, show_legend: true }),
    {
        TimeSeriesChart { width, height, show_grid: true, show_legend: true }
    }
}

impl Default for TimeSeriesChart {
    fn default() -> (chart: TimeSeriesChart)
        ensures
            chart == (TimeSeriesChart {
                width: 800,
                height: 400,
                show_grid: true,
                show_legend: true,
            }),
    {
        TimeSeriesChart { width: 800, height: 400, show_grid: true, show_legend: true }
    }
}

} // verus!
