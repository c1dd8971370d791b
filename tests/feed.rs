use rapla_parser::{
    clock_text, ics_base, parse_calendar, serialize, Calendar, Config, Date, Event, RaplaScraper,
    Selectors, Time,
};

fn event(title: &str, day: u32, hour: u32) -> Event {
    Event {
        date: Date { year: 2024, month: 3, day },
        start: Time { hour, minute: 0 },
        end: Time { hour: hour + 1, minute: 30 },
        title: String::from(title),
        location: None,
        organizer: None,
    }
}

fn uid_line(text: &str) -> String {
    text.lines().find(|l| l.starts_with("UID:")).expect("has a uid").to_string()
}

#[test]
fn event_block_is_exact() {
    let mut e = event("Algorithms & Data Structures", 5, 10);
    e.location = Some(String::from("Room A1"));
    let expected = "BEGIN:VEVENT\r\n\
        UID:20240305T100000_Algorithms-&-Data-Structures\r\n\
        DTSTAMP:20240305T100000\r\n\
        DTSTART;TZID=Europe/Berlin:20240305T100000\r\n\
        DTEND;TZID=Europe/Berlin:20240305T113000\r\n\
        SUMMARY:Algorithms & Data Structures\r\n\
        LOCATION:Room A1\r\n\
        END:VEVENT\r\n";
    assert_eq!(e.to_ics(), expected);
}

#[test]
fn base_holds_name_and_time_zone() {
    let expected = "BEGIN:VCALENDAR\r\n\
        VERSION:2.0\r\n\
        PRODID:Plan\\, A\r\n\
        BEGIN:VTIMEZONE\r\n\
        TZID:Europe/Berlin\r\n\
        BEGIN:DAYLIGHT\r\n\
        DTSTART:19700329T020000\r\n\
        TZOFFSETFROM:+0100\r\n\
        TZOFFSETTO:+0200\r\n\
        TZNAME:CEST\r\n\
        RRULE:FREQ=YEARLY;BYMONTH=3;BYDAY=-1SU\r\n\
        END:DAYLIGHT\r\n\
        BEGIN:STANDARD\r\n\
        DTSTART:19701025T030000\r\n\
        TZOFFSETFROM:+0200\r\n\
        TZOFFSETTO:+0100\r\n\
        TZNAME:CET\r\n\
        RRULE:FREQ=YEARLY;BYMONTH=10;BYDAY=-1SU\r\n\
        END:STANDARD\r\n\
        END:VTIMEZONE\r\n\
        END:VCALENDAR\r\n";
    assert_eq!(ics_base("Plan, A").to_string(), expected);
}

#[test]
fn calendar_is_base_events_and_footer() {
    let cal = Calendar {
        name: String::from("Plan"),
        events: vec![event("One", 4, 8), event("Two", 5, 9)],
    };
    let base = ics_base("Plan").to_string();
    let expected = format!(
        "{}{}{}END:VCALENDAR\r\n",
        base.trim_end_matches("END:VCALENDAR\r\n"),
        cal.events[0].to_ics(),
        cal.events[1].to_ics()
    );
    assert_eq!(cal.to_ics(), expected);
    assert_eq!(serialize(&cal), expected);
}

#[test]
fn summary_escapes_comma_and_semicolon() {
    let e = event("Math, Physics; Lab", 4, 8);
    let text = e.to_ics();
    assert!(text.contains("SUMMARY:Math\\, Physics\\; Lab\r\n"));
    let value = text
        .lines()
        .find(|l| l.starts_with("SUMMARY:"))
        .unwrap()
        .trim_start_matches("SUMMARY:")
        .replace("\\,", ",")
        .replace("\\;", ";");
    assert_eq!(value, "Math, Physics; Lab");
}

#[test]
fn backslash_and_newline_are_escaped() {
    let mut e = event("a\\b", 4, 8);
    e.organizer = Some(String::from("x\ny"));
    let text = e.to_ics();
    assert!(text.contains("SUMMARY:a\\\\b\r\n"));
    assert!(text.contains("ORGANIZER:x\\ny\r\n"));
}

#[test]
fn identifiers_follow_date_start_and_title() {
    let a = event("Data Bases", 4, 8);
    let mut b = event("Data Bases", 4, 8);
    b.end = Time { hour: 17, minute: 0 };
    b.location = Some(String::from("Elsewhere"));
    assert_eq!(uid_line(&a.to_ics()), uid_line(&b.to_ics()));
    assert_ne!(uid_line(&a.to_ics()), uid_line(&event("Data Bases", 5, 8).to_ics()));
    assert_ne!(uid_line(&a.to_ics()), uid_line(&event("Data Bases", 4, 9).to_ics()));
    assert_ne!(uid_line(&a.to_ics()), uid_line(&event("Data Base", 4, 8).to_ics()));
}

#[test]
fn years_outside_four_digits_carry_a_sign() {
    let mut e = event("T", 4, 8);
    e.date = Date { year: 12345, month: 1, day: 2 };
    assert!(e.to_ics().contains("DTSTART;TZID=Europe/Berlin:+123450102T080000\r\n"));
    e.date = Date { year: -44, month: 3, day: 15 };
    assert!(e.to_ics().contains("DTSTART;TZID=Europe/Berlin:-00440315T080000\r\n"));
    e.date = Date { year: 987, month: 3, day: 15 };
    assert!(e.to_ics().contains("DTSTART;TZID=Europe/Berlin:09870315T080000\r\n"));
}

#[test]
fn long_lines_are_folded() {
    let title = "x".repeat(100);
    let text = event(&title, 4, 8).to_ics();
    let summary = format!("SUMMARY:{}", title);
    assert!(text.contains(&format!("{}\r\n {}\r\n", &summary[..75], &summary[75..])));
}

#[test]
fn serializing_twice_gives_the_same_text() {
    let doc = "<html><head><title>Twice</title></head><body>\
        <select name=\"year\"><option selected>2024</option></select>\
        <div class=\"calendar\"><table class=\"week_table\"><tbody>\
        <tr><th class=\"week_number\">KW 10</th><td class=\"week_header\"><nobr>Mo 04.03.</nobr></td></tr>\
        <tr><td class=\"week_block\"><a>10:00&nbsp;-11:30<br>A, B</a></td></tr>\
        </tbody></table></div></body></html>";
    let first = serialize(&parse_calendar(doc).unwrap());
    let second = serialize(&parse_calendar(doc).unwrap());
    assert_eq!(first, second);
    assert!(first.contains("SUMMARY:A\\, B\r\n"));
}

#[test]
fn page_url_carries_the_day() {
    let r = RaplaScraper::new(String::from("https://rapla.example/rapla?key=k"));
    assert_eq!(
        r.format_url(2024, 3, 4),
        "https://rapla.example/rapla?key=k&day=4&month=3&year=2024"
    );
}

#[test]
fn config_holds_its_values() {
    let c = Config { ttl_seconds: 3600, max_size: 50 };
    assert_eq!(c.ttl_seconds, 3600);
    assert_eq!(c.max_size, 50);
}

#[test]
fn clock_text_pads_to_two_digits() {
    assert_eq!(clock_text(Time { hour: 9, minute: 5 }), "09:05");
    assert_eq!(clock_text(Time { hour: 23, minute: 59 }), "23:59");
}

#[test]
fn selectors_compile() {
    let s = Selectors::parse();
    let _ = &s.title;
    let r = RaplaScraper::new(String::from("u"));
    assert_eq!(r.url, "u");
}
