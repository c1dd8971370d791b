use rapla_parser::dates::WeekRange;
use rapla_parser::legacy::{events_of_page, rapla_event_to_ics, Block, BlockPage};
use rapla_parser::{ics_base, rapla_feed, Date, RaplaEvent, RaplaScraper};

fn block(kind: &str, title: &str, persons: &[&str], info: &str, resources: &[&str]) -> String {
    let persons: String = persons
        .iter()
        .map(|p| format!("<span class=\"person\">{p}</span>"))
        .collect();
    let resources: String = resources
        .iter()
        .map(|r| format!("<span class=\"resource\">{r}</span>"))
        .collect();
    format!(
        "<td class=\"week_block\"><a><strong>{kind}</strong><div>head</div><div>{info}</div>\
         <table class=\"infotable\"><tr><td>Titel:</td><td>{title}</td></tr></table>\
         {persons}{resources}</a></td>"
    )
}

fn page(blocks: &[String]) -> String {
    format!(
        "<html><body><div id=\"calendar\"><table><tr>{}</tr></table></div></body></html>",
        blocks.concat()
    )
}

fn scraper() -> RaplaScraper {
    RaplaScraper::new(String::from("https://rapla.example/rapla?key=k"))
}

#[test]
fn lecture_block_is_read() {
    let doc = page(&[block(
        "Vorlesung",
        "Math &amp; Logic",
        &["Doe,", "Roe"],
        "Mo 04.03.24 10:00-11:30 wöchentlich",
        &["TINF22", "Room A1"],
    )]);
    let events = scraper().parse_page(&doc).expect("page reads");
    assert_eq!(
        events,
        vec![RaplaEvent {
            title: String::from("Math & Logic"),
            lecturers: String::from("Doe & Roe"),
            date: String::from("04.03.24"),
            start: String::from("10:00"),
            end: String::from("11:30"),
            location: String::from("TINF22, Room A1"),
        }]
    );
}

#[test]
fn bookings_and_bare_exams_are_left_out() {
    let doc = page(&[
        block("Vorlesung", "Belegung Labor", &[], "Mo 04.03.24 10:00-11:30", &[]),
        block("Vorlesung", "Raum belegt", &[], "Mo 04.03.24 10:00-11:30", &[]),
        block("Klausur", "Klausur", &[], "Mo 04.03.24 10:00-11:30", &[]),
        block("Sonstiges", "Party", &[], "Mo 04.03.24 10:00-11:30", &[]),
        block("Klausur", "Klausur Analysis", &[], "Di 05.03.24 08:00-10:00", &[]),
    ]);
    let events = scraper().parse_page(&doc).expect("page reads");
    assert_eq!(events.len(), 1);
    assert_eq!(events[0].title, "Klausur Analysis");
}

#[test]
fn online_events_are_located_online() {
    let doc = page(&[block("Online-Format", "Web", &[], "Mi 06.03.24 09:00-10:00", &["Room"])]);
    let events = scraper().parse_page(&doc).expect("page reads");
    assert_eq!(events[0].location, "Online");
}

#[test]
fn page_without_calendar_is_none() {
    let doc = "<html><body><p>login</p></body></html>";
    assert_eq!(scraper().parse_page(doc), None);
}

#[test]
fn block_without_times_fails_the_page() {
    let b = Block {
        kind: Some(String::from("Vorlesung")),
        info: Some(vec![String::from("Titel:"), String::from("T")]),
        persons: vec![],
        divs: vec![String::from("head"), String::from("Mo 04.03.24")],
        resources: vec![],
    };
    let p = BlockPage { has_calendar: true, blocks: vec![b] };
    assert_eq!(events_of_page(&p), None);
}

#[test]
fn free_text_event_block_is_exact() {
    let e = RaplaEvent {
        title: String::from("Math, Logic"),
        lecturers: String::from("Doe & Roe"),
        date: String::from("04.03.24"),
        start: String::from("10:00"),
        end: String::from("11:30"),
        location: String::from("Room A1"),
    };
    let expected = "BEGIN:VEVENT\r\n\
        UID:20240304T100000_Math\\,-Logic\r\n\
        DTSTAMP:20240304T100000\r\n\
        SUMMARY:Math\\, Logic\r\n\
        DTSTART;TZID=Europe/Berlin:20240304T100000\r\n\
        DTEND;TZID=Europe/Berlin:20240304T113000\r\n\
        ORGANIZER:Doe & Roe\r\n\
        LOCATION:Room A1\r\n\
        END:VEVENT\r\n";
    assert_eq!(rapla_event_to_ics(&e), expected);
}

#[test]
fn week_range_steps_a_week_at_a_time() {
    let start = Date { year: 2024, month: 12, day: 23 };
    let end = Date { year: 2025, month: 1, day: 6 };
    let mut weeks = WeekRange::new(start, end);
    let mut seen = Vec::new();
    while let Some(d) = weeks.next() {
        seen.push(d);
    }
    assert_eq!(
        seen,
        vec![
            Date { year: 2024, month: 12, day: 23 },
            Date { year: 2024, month: 12, day: 30 },
            Date { year: 2025, month: 1, day: 6 },
        ]
    );
}

#[test]
fn free_text_feed_is_base_events_and_footer() {
    let e = RaplaEvent {
        title: String::from("T"),
        lecturers: String::from("L"),
        date: String::from("04.03.24"),
        start: String::from("10:00"),
        end: String::from("11:00"),
        location: String::from("R"),
    };
    let events = vec![e.clone(), e.clone()];
    let base = ics_base("key").to_string();
    let expected = format!(
        "{}{}{}END:VCALENDAR\r\n",
        base.trim_end_matches("END:VCALENDAR\r\n"),
        rapla_event_to_ics(&e),
        rapla_event_to_ics(&e)
    );
    assert_eq!(rapla_feed("key", &events), expected);
}

#[test]
fn four_digit_years_and_empty_fields() {
    let e = RaplaEvent {
        title: String::from("Exam"),
        lecturers: String::new(),
        date: String::from("04.03.2024"),
        start: String::from("08:00"),
        end: String::from("10:00"),
        location: String::new(),
    };
    let text = rapla_event_to_ics(&e);
    assert!(text.contains("DTSTART;TZID=Europe/Berlin:20240304T080000\r\n"));
    assert!(!text.contains("ORGANIZER"));
    assert!(!text.contains("LOCATION"));
    assert!(!text.contains("\r\nTZID"));
}
