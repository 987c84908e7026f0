use weight_tracker::date::Date;
use weight_tracker::store::RecordStore;
use weight_tracker::window::{
    axis_labels, chart, chart_title, step_anchor, value_bounds, window_bounds, PlotPoint, ViewMode,
    Window, EMPTY_HIGH, EMPTY_LOW, PAD,
};

fn on(year: u32, month: u32, day: u32) -> Date {
    Date::new(year, month, day).unwrap()
}

fn sample() -> RecordStore {
    let mut store = RecordStore::new();
    store.append(on(2024, 4, 26), 901).unwrap();
    store.append(on(2024, 4, 27), 899).unwrap();
    store.append(on(2024, 5, 1), 915).unwrap();
    store.append(on(2024, 5, 2), 941).unwrap();
    store.append(on(2024, 5, 3), 879).unwrap();
    store
}

#[test]
fn month_window_of_a_leap_february() {
    let window = window_bounds(ViewMode::Month, on(2024, 2, 15)).unwrap();
    assert_eq!(window.left, on(2024, 2, 1));
    assert_eq!(window.right, on(2024, 2, 29));
    assert_eq!(window.delta(), 28);
}

#[test]
fn month_window_of_december_stays_in_its_year() {
    let window = window_bounds(ViewMode::Month, on(2024, 12, 10)).unwrap();
    assert_eq!(window.left, on(2024, 12, 1));
    assert_eq!(window.right, on(2024, 12, 31));
    assert_eq!(window.delta(), 30);
    let last = window_bounds(ViewMode::Month, on(9999, 12, 31)).unwrap();
    assert_eq!(last.right, on(9999, 12, 31));
}

#[test]
fn year_window_runs_from_january_to_december() {
    let window = window_bounds(ViewMode::Year, on(2023, 7, 4)).unwrap();
    assert_eq!(window.left, on(2023, 1, 1));
    assert_eq!(window.right, on(2023, 12, 31));
    assert_eq!(window.delta(), 364);
    assert_eq!(window_bounds(ViewMode::Year, on(2024, 7, 4)).unwrap().delta(), 365);
}

#[test]
fn rolling_year_window_ends_on_the_anchor() {
    let window = window_bounds(ViewMode::RollingYear, on(2025, 5, 19)).unwrap();
    assert_eq!(window.left, on(2024, 5, 19));
    assert_eq!(window.right, on(2025, 5, 19));
    assert_eq!(window.delta(), 365);
    let leap = window_bounds(ViewMode::RollingYear, on(2024, 2, 29)).unwrap();
    assert_eq!(leap.left, on(2023, 2, 28));
}

#[test]
fn rolling_year_has_no_window_in_year_one() {
    assert_eq!(window_bounds(ViewMode::RollingYear, on(1, 6, 1)), None);
    assert!(window_bounds(ViewMode::RollingYear, on(2, 1, 1)).is_some());
    assert!(window_bounds(ViewMode::Month, on(1, 6, 1)).is_some());
    assert!(window_bounds(ViewMode::Year, on(1, 6, 1)).is_some());
}

#[test]
fn plot_points_are_days_since_the_left_edge() {
    let window = window_bounds(ViewMode::Month, on(2024, 5, 20)).unwrap();
    assert_eq!(
        window.plot_points(&sample()),
        vec![
            PlotPoint { day: 0, tenths: 915 },
            PlotPoint { day: 1, tenths: 941 },
            PlotPoint { day: 2, tenths: 879 },
        ]
    );
    let april = window_bounds(ViewMode::Month, on(2024, 4, 1)).unwrap();
    assert_eq!(
        april.plot_points(&sample()),
        vec![PlotPoint { day: 25, tenths: 901 }, PlotPoint { day: 26, tenths: 899 }]
    );
    let year = window_bounds(ViewMode::Year, on(2024, 1, 1)).unwrap();
    assert_eq!(year.plot_points(&sample()).len(), 5);
    assert_eq!(year.plot_points(&sample())[0], PlotPoint { day: 116, tenths: 901 });
}

#[test]
fn records_outside_the_window_are_clipped() {
    let window = Window { left: on(2024, 4, 27), right: on(2024, 5, 2) };
    assert_eq!(
        window.plot_points(&sample()),
        vec![
            PlotPoint { day: 0, tenths: 899 },
            PlotPoint { day: 4, tenths: 915 },
            PlotPoint { day: 5, tenths: 941 },
        ]
    );
}

#[test]
fn a_record_of_the_day_before_the_window_gives_no_point() {
    let window = window_bounds(ViewMode::Month, on(2024, 5, 20)).unwrap();
    let mut store = RecordStore::new();
    store.append(on(2024, 4, 30), 888).unwrap();
    assert_eq!(window.plot_points(&store), vec![]);
    store.append(on(2024, 5, 1), 900).unwrap();
    store.append(on(2024, 6, 1), 777).unwrap();
    assert_eq!(window.plot_points(&store), vec![PlotPoint { day: 0, tenths: 900 }]);
    store.append(on(2024, 5, 31), 910).unwrap();
    assert_eq!(
        window.plot_points(&store),
        vec![PlotPoint { day: 0, tenths: 900 }, PlotPoint { day: 30, tenths: 910 }]
    );
}

#[test]
fn value_bounds_of_an_empty_window() {
    assert_eq!(value_bounds(&vec![]), (20, 980));
    assert_eq!((EMPTY_LOW, EMPTY_HIGH, PAD), (20, 980, 20));
    let window = window_bounds(ViewMode::Month, on(2020, 1, 1)).unwrap();
    let shown = chart(ViewMode::Month, on(2020, 1, 1), &sample()).unwrap();
    assert_eq!(window.plot_points(&sample()), vec![]);
    assert_eq!(shown.low as f64 / 10.0, 2.0);
    assert_eq!(shown.high as f64 / 10.0, 98.0);
}

#[test]
fn value_bounds_pad_the_lightest_and_the_heaviest() {
    let points = vec![
        PlotPoint { day: 0, tenths: 915 },
        PlotPoint { day: 1, tenths: 941 },
        PlotPoint { day: 2, tenths: 879 },
    ];
    assert_eq!(value_bounds(&points), (859, 961));
    assert_eq!(value_bounds(&vec![PlotPoint { day: 3, tenths: 5 }]), (-15, 25));
    assert_eq!(
        value_bounds(&vec![PlotPoint { day: 3, tenths: u32::MAX }]),
        (4294967275, 4294967315)
    );
}

#[test]
fn axis_labels_of_each_mode() {
    let month = window_bounds(ViewMode::Month, on(2024, 2, 15)).unwrap();
    assert_eq!(axis_labels(ViewMode::Month, &month), vec!["01", "29"]);
    let year = window_bounds(ViewMode::Year, on(2024, 2, 15)).unwrap();
    assert_eq!(axis_labels(ViewMode::Year, &year), vec!["Jan", "May", "Sep", "Dec"]);
    let rolling = window_bounds(ViewMode::RollingYear, on(2025, 5, 19)).unwrap();
    assert_eq!(
        axis_labels(ViewMode::RollingYear, &rolling),
        vec!["19-05-2024", "19-09-2024", "19-01-2025", "19-05-2025"]
    );
    let clamped = window_bounds(ViewMode::RollingYear, on(2024, 10, 31)).unwrap();
    assert_eq!(
        axis_labels(ViewMode::RollingYear, &clamped),
        vec!["31-10-2023", "29-02-2024", "30-06-2024", "31-10-2024"]
    );
}

#[test]
fn chart_titles() {
    assert_eq!(chart_title(ViewMode::Month, on(2024, 2, 15)), "Feb 2024");
    assert_eq!(chart_title(ViewMode::Year, on(2024, 2, 15)), "2024");
    assert_eq!(chart_title(ViewMode::RollingYear, on(2024, 2, 15)), "One Year Window");
}

#[test]
fn step_anchor_moves_by_the_unit_of_the_mode() {
    assert_eq!(step_anchor(ViewMode::Month, on(2024, 1, 31), true), on(2024, 2, 29));
    assert_eq!(step_anchor(ViewMode::Month, on(2024, 1, 31), false), on(2023, 12, 31));
    assert_eq!(step_anchor(ViewMode::Year, on(2024, 2, 29), true), on(2025, 2, 28));
    assert_eq!(step_anchor(ViewMode::Year, on(2024, 2, 29), false), on(2023, 2, 28));
    assert_eq!(step_anchor(ViewMode::RollingYear, on(2024, 2, 29), true), on(2024, 3, 1));
    assert_eq!(step_anchor(ViewMode::RollingYear, on(2024, 3, 1), false), on(2024, 2, 29));
}

#[test]
fn step_anchor_stays_at_the_ends_of_the_calendar() {
    assert_eq!(step_anchor(ViewMode::Month, on(9999, 12, 5), true), on(9999, 12, 5));
    assert_eq!(step_anchor(ViewMode::Year, on(9999, 3, 5), true), on(9999, 3, 5));
    assert_eq!(step_anchor(ViewMode::RollingYear, on(9999, 12, 31), true), on(9999, 12, 31));
    assert_eq!(step_anchor(ViewMode::Month, on(1, 1, 5), false), on(1, 1, 5));
    assert_eq!(step_anchor(ViewMode::Year, on(1, 3, 5), false), on(1, 3, 5));
    assert_eq!(step_anchor(ViewMode::RollingYear, on(1, 1, 1), false), on(1, 1, 1));
}

#[test]
fn chart_puts_it_all_together() {
    let shown = chart(ViewMode::Month, on(2024, 5, 20), &sample()).unwrap();
    assert_eq!(shown.window, Window { left: on(2024, 5, 1), right: on(2024, 5, 31) });
    assert_eq!(shown.delta, 30);
    assert_eq!(shown.points.len(), 3);
    assert_eq!((shown.low, shown.high), (859, 961));
    assert_eq!(shown.labels, vec!["01", "31"]);
    assert_eq!(shown.title, "May 2024");
    assert!(chart(ViewMode::RollingYear, on(1, 5, 20), &sample()).is_none());
}
