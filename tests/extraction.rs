use rapla_parser::{
    calendar_from_outline, parse_calendar, Calendar, Cell, Date, ExtractionFailure, PageOutline,
    Part, Time, Week,
};

fn week_table(number: &str, header: &str, rows: &str) -> String {
    format!(
        "<table class=\"week_table\"><tbody><tr><th class=\"week_number\">{number}</th>\
         <td class=\"week_header\"><nobr>{header}</nobr></td></tr>{rows}</tbody></table>"
    )
}

fn page(title: Option<&str>, year: &str, tables: &[String]) -> String {
    let head = match title {
        Some(t) => format!("<head><title>{t}</title></head>"),
        None => String::from("<head></head>"),
    };
    format!(
        "<html>{head}<body><select name=\"year\"><option>2000</option>\
         <option selected>{year}</option></select><div class=\"calendar\">{}</div></body></html>",
        tables.concat()
    )
}

fn event_cell(link: &str, extra: &str) -> String {
    format!("<td class=\"week_block\"><a href=\"#\">{link}</a>{extra}</td>")
}

fn date(year: i32, month: u32, day: u32) -> Date {
    Date { year, month, day }
}

#[test]
fn end_to_end_scenario() {
    let row = format!(
        "<tr><td class=\"week_label\">08:00</td><td class=\"week_separatorcell\"></td>{}</tr>",
        event_cell(
            "10:00&nbsp;-11:30<br>Algorithms &amp; Data Structures",
            "<span class=\"resource\">TINF22</span><span class=\"resource\">Room A1</span>"
        )
    );
    let doc = page(Some("My Schedule"), "2024", &[week_table("KW 10", "Mo 04.03.", &row)]);
    let cal = parse_calendar(&doc).expect("page reads");
    assert_eq!(cal.name, "My Schedule");
    assert_eq!(cal.events.len(), 1);
    let e = &cal.events[0];
    assert_eq!(e.date, date(2024, 3, 5));
    assert_eq!(e.start, Time { hour: 10, minute: 0 });
    assert_eq!(e.end, Time { hour: 11, minute: 30 });
    assert_eq!(e.title, "Algorithms & Data Structures");
    assert_eq!(e.location.as_deref(), Some("Room A1"));
    assert_eq!(e.organizer, None);
}

#[test]
fn year_rolls_over_after_week_one() {
    let row = format!("<tr>{}</tr>", event_cell("09:00&nbsp;-10:00<br>Lecture", ""));
    let doc = page(
        Some("Rollover"),
        "2024",
        &[
            week_table("KW 52", "Mo 23.12.", &row),
            week_table("KW 1", "Mo 06.01.", &row),
            week_table("KW 2", "Mo 13.01.", &row),
        ],
    );
    let cal = parse_calendar(&doc).expect("page reads");
    let dates: Vec<Date> = cal.events.iter().map(|e| e.date).collect();
    assert_eq!(dates, vec![date(2024, 12, 23), date(2025, 1, 6), date(2025, 1, 13)]);
}

#[test]
fn first_table_numbered_one_keeps_the_selected_year() {
    let row = format!("<tr>{}</tr>", event_cell("09:00&nbsp;-10:00<br>Lecture", ""));
    let doc = page(Some("T"), "2024", &[week_table("KW 1", "Mo 01.01.", &row)]);
    let cal = parse_calendar(&doc).expect("page reads");
    assert_eq!(cal.events[0].date, date(2024, 1, 1));
}

#[test]
fn entity_in_title_is_unescaped() {
    let row = format!("<tr>{}</tr>", event_cell("09:00&nbsp;-10:00<br>Intro &amp; Outro", ""));
    let doc = page(Some("T"), "2024", &[week_table("KW 10", "Mo 04.03.", &row)]);
    let cal = parse_calendar(&doc).expect("page reads");
    assert_eq!(cal.events[0].title, "Intro & Outro");
}

#[test]
fn missing_optional_fields_are_absent() {
    let row = format!(
        "<tr>{}</tr>",
        event_cell("09:00&nbsp;-10:00<br>Seminar", "<span class=\"resource\">only one</span>")
    );
    let doc = page(Some("T"), "2024", &[week_table("KW 10", "Mo 04.03.", &row)]);
    let cal = parse_calendar(&doc).expect("page reads");
    assert_eq!(cal.events[0].organizer, None);
    assert_eq!(cal.events[0].location, None);
    assert!(!cal.to_ics().contains("ORGANIZER"));
    assert!(!cal.to_ics().contains("LOCATION"));
}

#[test]
fn persons_are_joined_without_trailing_commas() {
    let row = format!(
        "<tr>{}</tr>",
        event_cell(
            "09:00&nbsp;-10:00<br>Seminar",
            "<span class=\"person\">Doe,</span><span class=\"person\">Roe</span>"
        )
    );
    let doc = page(Some("T"), "2024", &[week_table("KW 10", "Mo 04.03.", &row)]);
    let cal = parse_calendar(&doc).expect("page reads");
    assert_eq!(cal.events[0].organizer.as_deref(), Some("Doe, Roe"));
}

#[test]
fn separators_move_to_later_days() {
    let row = format!(
        "<tr>{}<td class=\"week_separatorcell\"></td><td class=\"week_separatorcell_black\"></td>{}</tr>",
        event_cell("08:00&nbsp;-09:00<br>First", ""),
        event_cell("10:00&nbsp;-11:00<br>Second", "")
    );
    let doc = page(Some("T"), "2024", &[week_table("KW 10", "Mo 04.03.", &row)]);
    let cal = parse_calendar(&doc).expect("page reads");
    assert_eq!(cal.events[0].date, date(2024, 3, 4));
    assert_eq!(cal.events[1].date, date(2024, 3, 6));
}

#[test]
fn page_without_title_fails() {
    let doc = page(None, "2024", &[]);
    let r = parse_calendar(&doc);
    assert_eq!(r, Err(ExtractionFailure::MissingAnchor(Part::Title)));
}

#[test]
fn page_without_weeks_has_no_events() {
    let doc = page(Some("  Empty  "), "2024", &[]);
    let cal = parse_calendar(&doc).expect("page reads");
    assert_eq!(cal, Calendar { name: String::from("Empty"), events: vec![] });
}

#[test]
fn year_that_is_not_a_number_fails() {
    let doc = page(Some("T"), "20x4", &[]);
    let r = parse_calendar(&doc);
    assert_eq!(r, Err(ExtractionFailure::MalformedNumber(Part::SelectedYear)));
}

fn outline(weeks: Vec<Week>) -> PageOutline {
    PageOutline {
        title: Some(String::from("T")),
        year: Some(String::from("2024")),
        weeks,
    }
}

fn block(link: Option<&str>) -> Cell {
    Cell {
        class: Some(String::from("week_block")),
        link: link.map(String::from),
        resources: vec![],
        persons: vec![],
    }
}

fn week(number: &str, header: &str, cells: Vec<Cell>) -> Week {
    Week {
        number: Some(String::from(number)),
        header: Some(String::from(header)),
        rows: vec![vec![], cells],
    }
}

#[test]
fn missing_year_control_fails() {
    let mut p = outline(vec![]);
    p.year = None;
    assert_eq!(
        calendar_from_outline(&p),
        Err(ExtractionFailure::MissingAnchor(Part::SelectedYear))
    );
}

#[test]
fn week_number_errors() {
    let mut w = week("KW 10", "Mo 04.03.", vec![]);
    w.number = None;
    assert_eq!(
        calendar_from_outline(&outline(vec![w])),
        Err(ExtractionFailure::MissingAnchor(Part::WeekNumber))
    );
    let w = week("KW10", "Mo 04.03.", vec![]);
    assert_eq!(
        calendar_from_outline(&outline(vec![w])),
        Err(ExtractionFailure::IncompleteDetail(Part::WeekNumber))
    );
    let w = week("KW ten", "Mo 04.03.", vec![]);
    assert_eq!(
        calendar_from_outline(&outline(vec![w])),
        Err(ExtractionFailure::MalformedNumber(Part::WeekNumber))
    );
}

#[test]
fn week_start_errors() {
    let mut w = week("KW 10", "Mo 04.03.", vec![]);
    w.header = None;
    assert_eq!(
        calendar_from_outline(&outline(vec![w])),
        Err(ExtractionFailure::MissingAnchor(Part::WeekStart))
    );
    let w = week("KW 10", "Mo", vec![]);
    assert_eq!(
        calendar_from_outline(&outline(vec![w])),
        Err(ExtractionFailure::IncompleteDetail(Part::WeekStart))
    );
    let w = week("KW 10", "Mo x.03.", vec![]);
    assert_eq!(
        calendar_from_outline(&outline(vec![w])),
        Err(ExtractionFailure::MalformedNumber(Part::Day))
    );
    let w = week("KW 10", "Mo 04.", vec![]);
    assert_eq!(
        calendar_from_outline(&outline(vec![w])),
        Err(ExtractionFailure::IncompleteDetail(Part::Month))
    );
    let w = week("KW 10", "Mo 04.x.", vec![]);
    assert_eq!(
        calendar_from_outline(&outline(vec![w])),
        Err(ExtractionFailure::MalformedNumber(Part::Month))
    );
    let w = week("KW 10", "Mo 30.02.", vec![]);
    assert_eq!(calendar_from_outline(&outline(vec![w])), Err(ExtractionFailure::InvalidDate));
}

#[test]
fn event_cell_errors() {
    let cases = [
        (None, ExtractionFailure::MissingAnchor(Part::EventLink)),
        (Some("09:00&nbsp;-10:00"), ExtractionFailure::IncompleteDetail(Part::DetailLines)),
        (Some("09:00 10:00<br>T"), ExtractionFailure::MissingAnchor(Part::TimeRange)),
        (Some("9h&nbsp;-10:00<br>T"), ExtractionFailure::MalformedTime(Part::StartTime)),
        (Some("09:00&nbsp;-25:00<br>T"), ExtractionFailure::MalformedTime(Part::EndTime)),
    ];
    for (link, expected) in cases {
        let w = week("KW 10", "Mo 04.03.", vec![block(link)]);
        assert_eq!(calendar_from_outline(&outline(vec![w])), Err(expected));
    }
}

#[test]
fn cell_without_class_fails() {
    let mut c = block(Some("09:00&nbsp;-10:00<br>T"));
    c.class = None;
    let w = week("KW 10", "Mo 04.03.", vec![c]);
    assert_eq!(
        calendar_from_outline(&outline(vec![w])),
        Err(ExtractionFailure::MissingAnchor(Part::CellClass))
    );
}

#[test]
fn inverted_time_range_passes_through() {
    let w = week("KW 10", "Mo 04.03.", vec![block(Some("12:00&nbsp;-08:30<br>Late"))]);
    let cal = calendar_from_outline(&outline(vec![w])).expect("reads");
    assert_eq!(cal.events[0].start, Time { hour: 12, minute: 0 });
    assert_eq!(cal.events[0].end, Time { hour: 8, minute: 30 });
}

#[test]
fn header_row_is_skipped() {
    let w = Week {
        number: Some(String::from("KW 10")),
        header: Some(String::from("Mo 04.03.")),
        rows: vec![vec![block(Some("09:00&nbsp;-10:00<br>Header"))]],
    };
    let cal = calendar_from_outline(&outline(vec![w])).expect("reads");
    assert!(cal.events.is_empty());
}

#[test]
fn day_index_crosses_month_end() {
    let sep = Cell {
        class: Some(String::from("week_separatorcell")),
        link: None,
        resources: vec![],
        persons: vec![],
    };
    let w = week(
        "KW 9",
        "Mo 26.02.",
        vec![sep.clone(), sep.clone(), sep.clone(), sep, block(Some("09:00&nbsp;-10:00<br>T"))],
    );
    let cal = calendar_from_outline(&outline(vec![w])).expect("reads");
    assert_eq!(cal.events[0].date, date(2024, 3, 1));
}

#[test]
fn last_date_chrono_holds_is_the_limit() {
    let sep = Cell {
        class: Some(String::from("week_separatorcell")),
        link: None,
        resources: vec![],
        persons: vec![],
    };
    let mut p = outline(vec![week(
        "KW 52",
        "Mo 31.12.",
        vec![block(Some("09:00&nbsp;-10:00<br>Last"))],
    )]);
    p.year = Some(String::from("262142"));
    let cal = calendar_from_outline(&p).expect("reads");
    assert_eq!(cal.events[0].date, date(262142, 12, 31));

    let mut p = outline(vec![week(
        "KW 52",
        "Mo 31.12.",
        vec![sep, block(Some("09:00&nbsp;-10:00<br>Past"))],
    )]);
    p.year = Some(String::from("262142"));
    assert_eq!(calendar_from_outline(&p), Err(ExtractionFailure::InvalidDate));

    let mut p = outline(vec![week("KW 1", "Mo 01.01.", vec![])]);
    p.year = Some(String::from("262143"));
    assert_eq!(calendar_from_outline(&p), Err(ExtractionFailure::InvalidDate));
}

#[test]
fn selected_year_must_fit_in_i32() {
    let mut p = outline(vec![]);
    p.year = Some(String::from("2147483648"));
    assert_eq!(
        calendar_from_outline(&p),
        Err(ExtractionFailure::MalformedNumber(Part::SelectedYear))
    );
    p.year = Some(String::from("-2147483648"));
    assert!(calendar_from_outline(&p).is_ok());
    p.year = Some(String::from("+2024"));
    assert!(calendar_from_outline(&p).is_ok());
}

#[test]
fn rollover_at_the_last_year_fails_cleanly() {
    let row = vec![block(Some("09:00&nbsp;-10:00<br>T"))];
    let mut p = outline(vec![
        week("KW 52", "Mo 25.12.", row.clone()),
        week("KW 1", "Mo 01.01.", row),
    ]);
    p.year = Some(String::from("2147483647"));
    assert_eq!(calendar_from_outline(&p), Err(ExtractionFailure::InvalidDate));
}

#[test]
fn leap_day_reads_only_in_leap_years() {
    let row = vec![block(Some("09:00&nbsp;-10:00<br>T"))];
    let cal = calendar_from_outline(&outline(vec![week("KW 9", "Do 29.02.", row.clone())]))
        .expect("2024 is a leap year");
    assert_eq!(cal.events[0].date, date(2024, 2, 29));
    let mut p = outline(vec![week("KW 9", "Do 29.02.", row)]);
    p.year = Some(String::from("2100"));
    assert_eq!(calendar_from_outline(&p), Err(ExtractionFailure::InvalidDate));
}

#[test]
fn from_html_agrees_with_parse_calendar() {
    let row = format!("<tr>{}</tr>", event_cell("09:00&nbsp;-10:00<br>Same", ""));
    let doc = page(Some("T"), "2024", &[week_table("KW 10", "Mo 04.03.", &row)]);
    assert_eq!(Calendar::from_html(&doc), parse_calendar(&doc));
    assert_eq!(Calendar::from_html("<p>no page</p>"), parse_calendar("<p>no page</p>"));
}

#[test]
fn times_read_as_chrono_reads_hh_mm() {
    let w = week("KW 10", "Mo 04.03.", vec![block(Some(" 9:00&nbsp;-10: 5<br>T"))]);
    let cal = calendar_from_outline(&outline(vec![w])).expect("reads");
    assert_eq!(cal.events[0].start, Time { hour: 9, minute: 0 });
    assert_eq!(cal.events[0].end, Time { hour: 10, minute: 5 });
    for bad in ["09:00x&nbsp;-10:00<br>T", "123:00&nbsp;-10:00<br>T", "09:60&nbsp;-10:00<br>T"] {
        let w = week("KW 10", "Mo 04.03.", vec![block(Some(bad))]);
        assert_eq!(
            calendar_from_outline(&outline(vec![w])),
            Err(ExtractionFailure::MalformedTime(Part::StartTime))
        );
    }
}
