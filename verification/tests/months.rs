use calendar_rs::month::{
    get_days_in_month_chrono, get_days_in_month_string, get_month_by_index, get_month_index,
    month_at_index, month_from_name, shift_months, SerializeableMonth,
};

const ALL: [SerializeableMonth; 12] = [
    SerializeableMonth::January,
    SerializeableMonth::February,
    SerializeableMonth::March,
    SerializeableMonth::April,
    SerializeableMonth::May,
    SerializeableMonth::June,
    SerializeableMonth::July,
    SerializeableMonth::August,
    SerializeableMonth::September,
    SerializeableMonth::October,
    SerializeableMonth::November,
    SerializeableMonth::December,
];

#[test]
fn month_names_read_back() {
    for m in ALL {
        assert_eq!(month_from_name(m.name()), Some(m));
        assert_eq!(SerializeableMonth::from(m.name()), m);
        assert_eq!(m.into_string(), m.name().to_string());
    }
    assert_eq!(SerializeableMonth::September.name(), "September");
}

#[test]
fn unknown_month_name_is_january() {
    assert_eq!(month_from_name("january"), None);
    assert_eq!(month_from_name("Jan"), None);
    assert_eq!(SerializeableMonth::from("Smarch"), SerializeableMonth::January);
    assert_eq!(SerializeableMonth::from(""), SerializeableMonth::January);
}

#[test]
fn month_numbers_and_indices() {
    for (i, m) in ALL.iter().enumerate() {
        assert_eq!(m.month_number() as usize, i + 1);
        assert_eq!(get_month_index(*m), Some(i));
        assert_eq!(get_month_by_index(i + 1), *m);
        assert_eq!(month_at_index(i), *m);
        assert_eq!(SerializeableMonth::from_number(i as u32 + 1), *m);
    }
}

#[test]
fn chrono_months_map_both_ways() {
    let chrono_months = [
        chrono::Month::January,
        chrono::Month::February,
        chrono::Month::March,
        chrono::Month::April,
        chrono::Month::May,
        chrono::Month::June,
        chrono::Month::July,
        chrono::Month::August,
        chrono::Month::September,
        chrono::Month::October,
        chrono::Month::November,
        chrono::Month::December,
    ];
    for (c, m) in chrono_months.iter().zip(ALL.iter()) {
        assert_eq!(SerializeableMonth::from_chrono(*c), *m);
        assert_eq!(m.to_chrono(), *c);
    }
}

#[test]
fn shift_by_one_moves_to_neighbour() {
    assert_eq!(shift_months(SerializeableMonth::March, 1), SerializeableMonth::April);
    assert_eq!(shift_months(SerializeableMonth::March, -1), SerializeableMonth::February);
    assert_eq!(shift_months(SerializeableMonth::December, 1), SerializeableMonth::January);
    assert_eq!(shift_months(SerializeableMonth::January, -1), SerializeableMonth::December);
    for m in ALL {
        assert_eq!(shift_months(shift_months(m, 1), -1), m);
        assert_eq!(shift_months(shift_months(m, -1), 1), m);
        assert_eq!(shift_months(m, 0), m);
    }
}

#[test]
fn shift_quirks() {
    // Any backward shift from January lands on December.
    assert_eq!(shift_months(SerializeableMonth::January, -5), SerializeableMonth::December);
    // Shifts above twelve are reduced modulo twelve first.
    assert_eq!(shift_months(SerializeableMonth::February, 14), SerializeableMonth::April);
    // Positions past twelve wrap modulo twelve.
    assert_eq!(shift_months(SerializeableMonth::November, 3), SerializeableMonth::February);
    assert_eq!(shift_months(SerializeableMonth::May, 7), SerializeableMonth::December);
}

#[test]
fn days_in_months() {
    let expected = [31u64, 28, 31, 30, 31, 30, 31, 31, 30, 31, 30, 31];
    let mut total = 0;
    for (m, d) in ALL.iter().zip(expected.iter()) {
        assert_eq!(get_days_in_month_chrono("2024", *m), *d);
        assert_eq!(get_days_in_month_string("2024", m.name()), Some(*d));
        total += get_days_in_month_chrono("", *m);
    }
    assert_eq!(total, 365);
    assert_eq!(get_days_in_month_string("2024", "Febuary"), None);
}
