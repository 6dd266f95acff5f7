use campus_dashboard::mensa::{
    char_is_whitespace, get_meals_today, meals_url, parse_mensa_meals_to_line, render_meal, JsonMensaMeal, JsonPrice,
    MealRow, Mensa, MensaLine, MensaMeal, MensaRow, MensaWidget, MENSA_NAME, NO_MEALS_TODAY,
};
use campus_dashboard::text::{contains_text, format_price};

fn json(name: &str, category: &str, cents: i64) -> JsonMensaMeal {
    JsonMensaMeal {
        name: name.to_string(),
        category: category.to_string(),
        prices: JsonPrice { students: cents },
    }
}

fn meal(name: &str, cents: i64) -> MensaMeal {
    MensaMeal { name: name.to_string(), price: cents }
}

#[test]
fn groups_meals_by_category_in_order_of_first_occurrence() {
    let meals = vec![
        json("Pasta", "Linie 1", 250),
        json("Curry", "Linie 2", 320),
        json("Salat", "Linie 1", 180),
    ];
    let mut evening = false;
    let lines = parse_mensa_meals_to_line(meals, &mut evening);
    assert_eq!(
        lines,
        vec![
            MensaLine { name: "Linie 1".to_string(), meals: vec![meal("Pasta", 250), meal("Salat", 180)] },
            MensaLine { name: "Linie 2".to_string(), meals: vec![meal("Curry", 320)] },
        ]
    );
    assert!(!evening);
}

#[test]
fn excluded_categories_are_dropped() {
    let meals = vec![
        json("Kaffee", "Cafeteria 11-14 Uhr", 100),
        json("Vorspeise", "[pizza]werk Salate / Vorspeisen", 300),
        json("Pizza", "[pizza]werk Pizza", 650),
    ];
    let mut evening = false;
    let lines = parse_mensa_meals_to_line(meals, &mut evening);
    assert_eq!(lines.len(), 1);
    assert_eq!(lines[0].name, "[pizza]werk Pizza");
}

#[test]
fn evening_meal_opens_the_evening_counter_and_is_not_listed() {
    let meals = vec![
        json("Abendessen", "Abendessen", 400),
        json("Suppe", "Abendessen Suppen", 200),
    ];
    let mut evening = false;
    let lines = parse_mensa_meals_to_line(meals, &mut evening);
    assert!(evening);
    assert_eq!(lines.len(), 1);
    assert_eq!(lines[0].name, "Abendessen Suppen");
}

#[test]
fn evening_meal_in_excluded_category_does_not_count() {
    let meals = vec![json("Abendessen", "Cafeteria 11-14 Uhr", 400)];
    let mut evening = false;
    let lines = parse_mensa_meals_to_line(meals, &mut evening);
    assert!(!evening);
    assert!(lines.is_empty());
}

#[test]
fn evening_flag_is_never_cleared() {
    let mut evening = true;
    let lines = parse_mensa_meals_to_line(vec![json("Pasta", "Linie 1", 250)], &mut evening);
    assert!(evening);
    assert_eq!(lines.len(), 1);
}

#[test]
fn todays_canteen_is_named_and_grouped() {
    let m = get_meals_today(vec![json("Pasta", "Linie 1", 250), json("Abendessen", "Abendessen", 1)]);
    assert_eq!(
        m,
        Mensa {
            name: MENSA_NAME.to_string(),
            lines: vec![MensaLine { name: "Linie 1".to_string(), meals: vec![meal("Pasta", 250)] }],
            abendausgabe_open: true,
        }
    );
    assert_eq!(m.name, "Mensa am Adenauer Ring");
}

#[test]
fn price_has_two_decimals() {
    assert_eq!(format_price(250), "2.50");
    assert_eq!(format_price(5), "0.05");
    assert_eq!(format_price(0), "0.00");
    assert_eq!(format_price(123456), "1234.56");
    assert_eq!(format_price(-75), "-0.75");
    assert_eq!(format_price(i64::MIN), "-92233720368547758.08");
}

#[test]
fn price_matches_two_decimal_float_formatting() {
    for cents in [0i64, 1, 9, 10, 99, 100, 110, 255, 1000, 99999] {
        assert_eq!(format_price(cents), format!("{:.2}", cents as f64 / 100.0));
    }
}

#[test]
fn substring_search() {
    assert!(contains_text("Abendessen", "Abendessen"));
    assert!(contains_text("Das Abendessen ist fertig", "Abendessen"));
    assert!(!contains_text("Abendesse", "Abendessen"));
    assert!(contains_text("x", ""));
    assert!(contains_text("Bewölkt über", "über"));
}

#[test]
fn meal_row_pads_the_price_to_the_right_edge() {
    let row = render_meal(&meal("Pasta", 250), 6, 20);
    assert_eq!(row, MealRow { name: "Pasta".to_string(), padding: 5, price: "      2.50".to_string() });
    assert_eq!(row.name.chars().count() + row.padding + row.price.len(), 20);
}

#[test]
fn meal_sold_by_weight_shows_per_100g() {
    let row = render_meal(&meal("Salatbar", 110), 6, 30);
    assert_eq!(row.price, " 100g 1.10");
    assert_eq!(row.padding, 30 - 8 - 10);
}

#[test]
fn long_meal_name_is_shortened() {
    let row = render_meal(&meal("Spaghetti Bolognese mit Parmesan", 380), 6, 25);
    assert_eq!(row.price, "      3.80");
    assert_eq!(row.padding, 0);
    assert_eq!(row.name, "Spaghetti Bo...");
}

#[test]
fn name_exactly_filling_the_width_is_shortened() {
    // 10 + 10 == 20: the difference is not positive.
    let row = render_meal(&meal("Kartoffeln", 250), 6, 20);
    assert_eq!(row.name, "Kartoff...");
    assert_eq!(row.padding, 0);
}

#[test]
fn width_read_as_i16_wraps() {
    // 40000 as i16 is negative, so the name is shortened (to at most its own length).
    let row = render_meal(&meal("Pasta", 250), 6, 40000);
    assert_eq!(row.name, "Pasta...");
    assert_eq!(row.padding, 0);
}

#[test]
fn closed_canteen_shows_message() {
    let w = MensaWidget { lines: vec![] };
    assert_eq!(w.render_rows(40), vec![MensaRow::Blank, MensaRow::Closed]);
    assert_eq!(NO_MEALS_TODAY, "Die Mensa hat heute nicht offen :(");
}

#[test]
fn menu_rows_list_each_line() {
    let w = MensaWidget {
        lines: vec![
            MensaLine { name: "Linie 1".to_string(), meals: vec![meal("Pasta", 250), meal("Salat", 180)] },
            MensaLine { name: "Linie 2".to_string(), meals: vec![meal("Curry", 320)] },
        ],
    };
    let rows = w.render_rows(20);
    assert_eq!(rows.len(), 1 + 4 + 3);
    assert_eq!(rows[0], MensaRow::Blank);
    assert_eq!(rows[1], MensaRow::Title("Linie 1".to_string()));
    assert_eq!(rows[2], MensaRow::Meal(render_meal(&meal("Pasta", 250), 6, 20)));
    assert_eq!(rows[3], MensaRow::Meal(render_meal(&meal("Salat", 180), 6, 20)));
    assert_eq!(rows[4], MensaRow::Blank);
    assert_eq!(rows[5], MensaRow::Title("Linie 2".to_string()));
    assert_eq!(rows[7], MensaRow::Blank);
}

#[test]
fn meals_url_takes_the_date_of_the_local_time() {
    assert_eq!(
        meals_url("https://example.org/canteens/1/days/", "2024-05-06 12:34:56.789 +02:00"),
        Some("https://example.org/canteens/1/days/2024-05-06/meals".to_string())
    );
    assert_eq!(meals_url("b/", "  \t2024-05-06\nrest"), Some("b/2024-05-06/meals".to_string()));
    assert_eq!(meals_url("b/", " \u{a0} "), None);
    assert_eq!(meals_url("b/", ""), None);
}

#[test]
fn whitespace_agrees_with_std_on_every_char() {
    for v in 0u32..=0x10FFFF {
        if let Some(c) = char::from_u32(v) {
            assert_eq!(char_is_whitespace(c), c.is_whitespace(), "{:#x}", v);
        }
    }
}

#[test]
fn excluded_meals_inserted_anywhere_change_nothing() {
    let base = vec![json("Pasta", "Linie 1", 250), json("Curry", "Linie 2", 320), json("Salat", "Linie 1", 180)];
    let mut f1 = false;
    let lines1 = parse_mensa_meals_to_line(base.clone(), &mut f1);
    for pos in 0..=base.len() {
        for extra in [
            json("Abendessen", "Cafeteria 11-14 Uhr", 100),
            json("Vorspeise", "[pizza]werk Salate / Vorspeisen", 300),
        ] {
            let mut meals = base.clone();
            meals.insert(pos, extra);
            let mut f2 = false;
            let lines2 = parse_mensa_meals_to_line(meals, &mut f2);
            assert_eq!(lines2, lines1);
            assert_eq!(f2, f1);
        }
    }
}
