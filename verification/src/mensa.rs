//! The canteen: grouping the meals of the day into serving lines, and the rows
//! of the menu panel.

use vstd::prelude::*;
use crate::text::{chars_of, contains_text, format_price, has_substring, price_text, push_char};

verus! {

/// A meal as the canteen service lists it; the student price is in cents.
#[derive(Clone, Debug)]
pub struct JsonMensaMeal {
    pub name: String,
    pub category: String,
    pub prices: JsonPrice,
}

/// The prices of a meal, in cents.
#[derive(Clone, Copy, Debug)]
pub struct JsonPrice {
    pub students: i64,
}

/// A meal of a serving line: its name and its student price in cents.
#[derive(Clone, Debug, PartialEq, Eq)]
pub struct MensaMeal {
    pub name: String,
    pub price: i64,
}

/// A serving line (a category of the menu) with its meals.
#[derive(Clone, Debug, PartialEq, Eq)]
pub struct MensaLine {
    pub name: String,
    pub meals: Vec<MensaMeal>,
}

/// The canteen as shown: its name, its serving lines and whether the evening
/// counter is open.
#[derive(Clone, Debug, PartialEq, Eq)]
pub struct Mensa {
    pub name: String,
    pub lines: Vec<MensaLine>,
    pub abendausgabe_open: bool,
}

/// What a listed meal is: name and price in cents.
pub struct MealView {
    pub name: Seq<char>,
    pub price: int,
}

/// What a serving line is: name and meals.
pub struct LineView {
    pub name: Seq<char>,
    pub meals: Seq<MealView>,
}

/// What a meal of the service's reply is.
pub struct JsonMealView {
    pub name: Seq<char>,
    pub category: Seq<char>,
    pub students: int,
}

impl View for MensaMeal {
    type V = MealView;

    open spec fn view(&self) -> MealView {
        MealView { name: self.name@, price: self.price as int }
    }
}

impl View for MensaLine {
    type V = LineView;

    open spec fn view(&self) -> LineView {
        LineView { name: self.name@, meals: self.meals@.map_values(|m: MensaMeal| m@) }
    }
}

impl View for JsonMensaMeal {
    type V = JsonMealView;

    open spec fn view(&self) -> JsonMealView {
        JsonMealView {
            name: self.name@,
            category: self.category@,
            students: self.prices.students as int,
        }
    }
}

/// The views of a sequence of meals of the reply.
pub open spec fn json_meals_view(ms: Seq<JsonMensaMeal>) -> Seq<JsonMealView> {
    ms.map_values(|m: JsonMensaMeal| m@)
}

/// The views of a sequence of serving lines.
pub open spec fn lines_view(ls: Seq<MensaLine>) -> Seq<LineView> {
    ls.map_values(|l: MensaLine| l@)
}

/// The categories that the menu leaves out.
pub open spec fn excluded_category(c: Seq<char>) -> bool {
    c == "Cafeteria 11-14 Uhr"@ || c == "[pizza]werk Salate / Vorspeisen"@
}

/// A meal that announces the evening counter: both its category and its name
/// mention `Abendessen`.
pub open spec fn is_evening_meal(m: JsonMealView) -> bool {
    has_substring(m.category, "Abendessen"@) && has_substring(m.name, "Abendessen"@)
}

/// A meal that the menu lists.
pub open spec fn is_listed(m: JsonMealView) -> bool {
    !excluded_category(m.category) && !is_evening_meal(m)
}

/// A meal, outside the excluded categories, that announces the evening counter.
pub open spec fn opens_evening(m: JsonMealView) -> bool {
    !excluded_category(m.category) && is_evening_meal(m)
}

/// The categories of the listed meals, each once, in the order in which they
/// first occur.
pub open spec fn line_names(ms: Seq<JsonMealView>) -> Seq<Seq<char>>
    decreases ms.len(),
{
    if ms.len() == 0 {
        seq![]
    } else {
        let prev = line_names(ms.drop_last());
        let m = ms.last();
        if is_listed(m) && !prev.contains(m.category) {
            prev.push(m.category)
        } else {
            prev
        }
    }
}

/// The listed meals of a category, in their order.
pub open spec fn line_meals(ms: Seq<JsonMealView>, category: Seq<char>) -> Seq<MealView>
    decreases ms.len(),
{
    if ms.len() == 0 {
        seq![]
    } else {
        let prev = line_meals(ms.drop_last(), category);
        let m = ms.last();
        if is_listed(m) && m.category == category {
            prev.push(MealView { name: m.name, price: m.students })
        } else {
            prev
        }
    }
}

/// The serving lines of the menu: one per category of a listed meal, in the
/// order of first occurrence, each with the listed meals of its category.
pub open spec fn menu_lines(ms: Seq<JsonMealView>) -> Seq<LineView> {
    line_names(ms).map_values(|c: Seq<char>| LineView { name: c, meals: line_meals(ms, c) })
}

/// Whether some meal of the reply announces the evening counter.
pub open spec fn evening_served(ms: Seq<JsonMealView>) -> bool {
    exists|i: int| 0 <= i < ms.len() && opens_evening(#[trigger] ms[i])
}


/// The listed meal of a category of the reply.
pub open spec fn meal_of(m: JsonMealView) -> MealView {
    MealView { name: m.name, price: m.students }
}

/// A category that is not a serving line has no listed meals.
proof fn lemma_unnamed_category_has_no_meals(ms: Seq<JsonMealView>, c: Seq<char>)
    requires
        !line_names(ms).contains(c),
    ensures
        line_meals(ms, c) == Seq::<MealView>::empty(),
    decreases ms.len(),
{
    if ms.len() > 0 {
        let prev = line_names(ms.drop_last());
        if prev.contains(c) {
            let k = choose|k: int| 0 <= k < prev.len() && prev[k] == c;
            let names = line_names(ms);
            assert(names == prev || names == prev.push(ms.last().category));
            assert(names[k] == c);
        }
        lemma_unnamed_category_has_no_meals(ms.drop_last(), c);
        let m = ms.last();
        if is_listed(m) && m.category == c && !prev.contains(c) {
            let names = line_names(ms);
            assert(names[names.len() - 1] == c);
        }
    }
}

/// The serving lines have distinct names.
pub proof fn lemma_line_names_distinct(ms: Seq<JsonMealView>)
    ensures
        line_names(ms).no_duplicates(),
    decreases ms.len(),
{
    if ms.len() > 0 {
        lemma_line_names_distinct(ms.drop_last());
    }
}

/// How the serving lines change when one more meal of the reply is taken in.
proof fn lemma_menu_lines_push(ms: Seq<JsonMealView>, m: JsonMealView)
    ensures
        !is_listed(m) ==> menu_lines(ms.push(m)) == menu_lines(ms),
        is_listed(m) && !line_names(ms).contains(m.category) ==> menu_lines(ms.push(m))
            == menu_lines(ms).push(LineView { name: m.category, meals: seq![meal_of(m)] }),
        forall|j: int|
            #![trigger line_names(ms)[j]]
            is_listed(m) && 0 <= j < line_names(ms).len() && line_names(ms)[j] == m.category
                ==> menu_lines(ms.push(m)) == menu_lines(ms).update(
                j,
                LineView { name: m.category, meals: menu_lines(ms)[j].meals.push(meal_of(m)) },
            ),
{
    let ms2 = ms.push(m);
    assert(ms2.drop_last() =~= ms);
    let names = line_names(ms);
    assert forall|c: Seq<char>|
        c != m.category || !is_listed(m) implies #[trigger] line_meals(ms2, c) == line_meals(ms, c) by {
    }
    assert(line_meals(ms2, m.category) == if is_listed(m) {
        line_meals(ms, m.category).push(meal_of(m))
    } else {
        line_meals(ms, m.category)
    });
    if !is_listed(m) {
        assert(menu_lines(ms2) =~= menu_lines(ms));
    } else if !names.contains(m.category) {
        lemma_unnamed_category_has_no_meals(ms, m.category);
        assert(line_meals(ms, m.category) =~= Seq::<MealView>::empty());
        assert forall|k: int| 0 <= k < names.len() implies names[k] != m.category by {
            if names[k] == m.category {
                assert(names.contains(m.category));
            }
        }
        assert(menu_lines(ms2) =~= menu_lines(ms).push(
            LineView { name: m.category, meals: seq![meal_of(m)] },
        ));
    } else {
        lemma_line_names_distinct(ms);
        assert forall|j: int|
            #![trigger line_names(ms)[j]]
            0 <= j < names.len() && names[j] == m.category implies menu_lines(ms2)
            == menu_lines(ms).update(
            j,
            LineView { name: m.category, meals: menu_lines(ms)[j].meals.push(meal_of(m)) },
        ) by {
            assert forall|k: int| 0 <= k < names.len() && k != j implies names[k] != m.category by {
            }
            assert(menu_lines(ms2) =~= menu_lines(ms).update(
                j,
                LineView { name: m.category, meals: menu_lines(ms)[j].meals.push(meal_of(m)) },
            ));
        }
    }
}


/// The position of the serving line with the given name, if there is one.
fn find_line(lines: &Vec<MensaLine>, category: &String) -> (r: Option<usize>)
    ensures
        r matches Some(j) ==> j < lines@.len() && lines@[j as int].name@ == category@,
        r is None ==> forall|k: int| 0 <= k < lines@.len() ==> lines@[k].name@ != category@,
{
    for j in 0..lines.len()
        invariant
            forall|k: int| 0 <= k < j ==> lines@[k].name@ != category@,
    {
        if lines[j].name == *category {
            return Some(j);
        }
    }
    None
}

/// Number of meals of the reply that the menu lists.
pub open spec fn listed_count(ms: Seq<JsonMealView>) -> nat
    decreases ms.len(),
{
    if ms.len() == 0 {
        0
    } else {
        listed_count(ms.drop_last()) + if is_listed(ms.last()) { 1nat } else { 0nat }
    }
}

/// Number of meals over all serving lines.
pub open spec fn total_meals(ls: Seq<LineView>) -> nat
    decreases ls.len(),
{
    if ls.len() == 0 {
        0
    } else {
        total_meals(ls.drop_last()) + ls.last().meals.len()
    }
}

proof fn lemma_total_meals_update(ls: Seq<LineView>, j: int, l: LineView)
    requires
        0 <= j < ls.len(),
    ensures
        total_meals(ls.update(j, l)) + ls[j].meals.len() == total_meals(ls) + l.meals.len(),
    decreases ls.len(),
{
    let u = ls.update(j, l);
    if j < ls.len() - 1 {
        assert(u.drop_last() =~= ls.drop_last().update(j, l));
        lemma_total_meals_update(ls.drop_last(), j, l);
    } else {
        assert(u.drop_last() =~= ls.drop_last());
    }
}

proof fn lemma_named_category_has_meals(ms: Seq<JsonMealView>, c: Seq<char>)
    requires
        line_names(ms).contains(c),
    ensures
        line_meals(ms, c).len() > 0,
    decreases ms.len(),
{
    if ms.len() > 0 {
        let prev = line_names(ms.drop_last());
        if prev.contains(c) {
            lemma_named_category_has_meals(ms.drop_last(), c);
        } else {
            let k = choose|k: int| 0 <= k < line_names(ms).len() && line_names(ms)[k] == c;
            assert(line_names(ms) == prev.push(ms.last().category));
            if k < prev.len() {
                assert(prev[k] == c);
            }
        }
    }
}

proof fn lemma_listed_meal_kept(ms: Seq<JsonMealView>, k: int)
    requires
        0 <= k < ms.len(),
        is_listed(ms[k]),
    ensures
        line_names(ms).contains(ms[k].category),
        line_meals(ms, ms[k].category).contains(meal_of(ms[k])),
    decreases ms.len(),
{
    let c = ms[k].category;
    let prev_names = line_names(ms.drop_last());
    let prev_meals = line_meals(ms.drop_last(), c);
    if k == ms.len() - 1 {
        assert(line_meals(ms, c) == prev_meals.push(meal_of(ms[k])));
        assert(line_meals(ms, c)[prev_meals.len() as int] == meal_of(ms[k]));
        if !prev_names.contains(c) {
            assert(line_names(ms)[prev_names.len() as int] == c);
        }
    } else {
        assert(ms.drop_last()[k] == ms[k]);
        lemma_listed_meal_kept(ms.drop_last(), k);
        let a = choose|a: int| 0 <= a < prev_names.len() && prev_names[a] == c;
        assert(line_names(ms)[a] == c);
        let b = choose|b: int| 0 <= b < prev_meals.len() && prev_meals[b] == meal_of(ms[k]);
        assert(line_meals(ms, c)[b] == meal_of(ms[k]));
    }
}

proof fn lemma_line_meal_comes_from_reply(ms: Seq<JsonMealView>, c: Seq<char>, t: int)
    requires
        0 <= t < line_meals(ms, c).len(),
    ensures
        exists|k: int|
            0 <= k < ms.len() && is_listed(#[trigger] ms[k]) && ms[k].category == c && meal_of(ms[k])
                == line_meals(ms, c)[t],
    decreases ms.len(),
{
    let prev = line_meals(ms.drop_last(), c);
    if t < prev.len() {
        lemma_line_meal_comes_from_reply(ms.drop_last(), c, t);
        let k = choose|k: int|
            0 <= k < ms.drop_last().len() && is_listed(#[trigger] ms.drop_last()[k])
                && ms.drop_last()[k].category == c && meal_of(ms.drop_last()[k]) == prev[t];
        assert(ms[k] == ms.drop_last()[k]);
    } else {
        assert(is_listed(ms[ms.len() - 1]));
    }
}

/// No two serving lines have the same name.
pub proof fn law_line_names_distinct(ms: Seq<JsonMealView>)
    ensures
        forall|i: int, j: int|
            0 <= i < j < menu_lines(ms).len() ==> #[trigger] menu_lines(ms)[i].name
                != #[trigger] menu_lines(ms)[j].name,
{
    lemma_line_names_distinct(ms);
}

/// Every serving line has at least one meal, and none is named after an
/// excluded category.
pub proof fn law_lines_not_empty(ms: Seq<JsonMealView>)
    ensures
        forall|j: int|
            0 <= j < menu_lines(ms).len() ==> #[trigger] menu_lines(ms)[j].meals.len() > 0
                && !excluded_category(menu_lines(ms)[j].name),
{
    assert forall|j: int| 0 <= j < menu_lines(ms).len() implies #[trigger] menu_lines(ms)[j].meals.len()
        > 0 && !excluded_category(menu_lines(ms)[j].name) by {
        let c = line_names(ms)[j];
        assert(line_names(ms).contains(c));
        lemma_named_category_has_meals(ms, c);
        lemma_line_meal_comes_from_reply(ms, c, 0);
    }
}

/// Every listed meal appears in the serving line of its category.
pub proof fn law_listed_meal_in_its_line(ms: Seq<JsonMealView>, k: int)
    requires
        0 <= k < ms.len(),
        is_listed(ms[k]),
    ensures
        exists|j: int|
            0 <= j < menu_lines(ms).len() && #[trigger] menu_lines(ms)[j].name == ms[k].category
                && menu_lines(ms)[j].meals.contains(meal_of(ms[k])),
{
    lemma_listed_meal_kept(ms, k);
    let j = choose|j: int| 0 <= j < line_names(ms).len() && line_names(ms)[j] == ms[k].category;
    assert(menu_lines(ms)[j].name == ms[k].category);
}

/// Every meal of a serving line is a listed meal of the reply whose category
/// is the line's name.
pub proof fn law_line_meal_is_listed(ms: Seq<JsonMealView>, j: int, t: int)
    requires
        0 <= j < menu_lines(ms).len(),
        0 <= t < menu_lines(ms)[j].meals.len(),
    ensures
        exists|k: int|
            0 <= k < ms.len() && is_listed(#[trigger] ms[k]) && ms[k].category == menu_lines(ms)[j].name
                && meal_of(ms[k]) == menu_lines(ms)[j].meals[t],
{
    lemma_line_meal_comes_from_reply(ms, line_names(ms)[j], t);
}

/// The serving lines hold exactly as many meals as the reply lists: none is
/// lost and none is counted twice.
pub proof fn law_no_meal_lost(ms: Seq<JsonMealView>)
    ensures
        total_meals(menu_lines(ms)) == listed_count(ms),
    decreases ms.len(),
{
    if ms.len() > 0 {
        let init = ms.drop_last();
        let m = ms.last();
        assert(init.push(m) =~= ms);
        law_no_meal_lost(init);
        lemma_menu_lines_push(init, m);
        let ls = menu_lines(init);
        if is_listed(m) {
            if line_names(init).contains(m.category) {
                let j = choose|j: int| 0 <= j < line_names(init).len() && line_names(init)[j] == m.category;
                let l2 = LineView { name: m.category, meals: ls[j].meals.push(meal_of(m)) };
                lemma_total_meals_update(ls, j, l2);
            } else {
                let l2 = LineView { name: m.category, meals: seq![meal_of(m)] };
                assert(ls.push(l2).drop_last() =~= ls);
            }
        }
    }
}

/// Meals of the excluded categories change nothing: inserting one anywhere
/// in the reply, whatever its name, leaves the serving lines and whether the
/// evening counter opens as they were.
pub proof fn law_excluded_meal_ignored(ms: Seq<JsonMealView>, i: int, e: JsonMealView)
    requires
        0 <= i <= ms.len(),
        excluded_category(e.category),
    ensures
        menu_lines(ms.insert(i, e)) == menu_lines(ms),
        evening_served(ms.insert(i, e)) == evening_served(ms),
{
    lemma_excluded_meal_ignored(ms, i, e);
    let ins = ms.insert(i, e);
    assert(menu_lines(ins) =~= menu_lines(ms));
    if evening_served(ins) {
        let k = choose|k: int| 0 <= k < ins.len() && opens_evening(#[trigger] ins[k]);
        if k < i {
            assert(ms[k] == ins[k]);
        } else {
            assert(k != i);
            assert(ms[k - 1] == ins[k]);
        }
    }
    if evening_served(ms) {
        let k = choose|k: int| 0 <= k < ms.len() && opens_evening(#[trigger] ms[k]);
        if k < i {
            assert(ms[k] == ins[k]);
        } else {
            assert(ms[k] == ins[k + 1]);
        }
    }
}

proof fn lemma_excluded_meal_ignored(ms: Seq<JsonMealView>, i: int, e: JsonMealView)
    requires
        0 <= i <= ms.len(),
        excluded_category(e.category),
    ensures
        line_names(ms.insert(i, e)) == line_names(ms),
        forall|c: Seq<char>| #[trigger] line_meals(ms.insert(i, e), c) == line_meals(ms, c),
    decreases ms.len(),
{
    let ins = ms.insert(i, e);
    if i == ms.len() {
        assert(ins.drop_last() =~= ms);
        assert(ins.last() == e);
        assert forall|c: Seq<char>| #[trigger] line_meals(ins, c) == line_meals(ms, c) by {}
    } else {
        assert(ins.drop_last() =~= ms.drop_last().insert(i, e));
        assert(ins.last() == ms.last());
        lemma_excluded_meal_ignored(ms.drop_last(), i, e);
        assert forall|c: Seq<char>| #[trigger] line_meals(ins, c) == line_meals(ms, c) by {
            assert(line_meals(ins.drop_last(), c) == line_meals(ms.drop_last(), c));
        }
    }
}

/// The meal of a serving line that a meal of the reply becomes.
fn listed_meal(meal: &JsonMensaMeal) -> (m: MensaMeal)
    ensures
        m@ == meal_of(meal@),
{
    MensaMeal { name: meal.name.clone(), price: meal.prices.students }
}

/// Groups the meals of the day into serving lines and notes whether the
/// evening counter is open.
///
/// Meals of the excluded categories are dropped. A meal whose category and
/// name both mention `Abendessen` only sets `abendausgabe_open`. Every other
/// meal joins the line named after its category, which is opened, behind the
/// existing lines, when its first meal comes.
pub fn parse_mensa_meals_to_line(meals: Vec<JsonMensaMeal>, abendausgabe_open: &mut bool) -> (lines:
    Vec<MensaLine>)
    ensures
        lines_view(lines@) == menu_lines(json_meals_view(meals@)),
        *final(abendausgabe_open) == (*old(abendausgabe_open) || evening_served(
            json_meals_view(meals@),
        )),
{
    let ghost ms = json_meals_view(meals@);
    let mut lines: Vec<MensaLine> = Vec::new();
    let excluded_cafeteria = String::from_str("Cafeteria 11-14 Uhr");
    let excluded_starters = String::from_str("[pizza]werk Salate / Vorspeisen");
    let n = meals.len();
    assert(ms.take(0) =~= Seq::<JsonMealView>::empty());
    assert(lines_view(lines@) =~= menu_lines(ms.take(0)));
    for i in 0..n
        invariant
            n == meals@.len(),
            ms == json_meals_view(meals@),
            excluded_cafeteria@ == "Cafeteria 11-14 Uhr"@,
            excluded_starters@ == "[pizza]werk Salate / Vorspeisen"@,
            lines_view(lines@) == menu_lines(ms.take(i as int)),
            *abendausgabe_open == (*old(abendausgabe_open) || evening_served(ms.take(i as int))),
    {
        let meal = &meals[i];
        let ghost mv = meal@;
        let ghost before = ms.take(i as int);
        assert(mv == ms[i as int]);
        assert(ms.take(i + 1) =~= before.push(mv));
        proof {
            lemma_menu_lines_push(before, mv);
        }
        let excluded = meal.category == excluded_cafeteria || meal.category == excluded_starters;
        if !excluded {
            if contains_text(meal.category.as_str(), "Abendessen") && contains_text(
                meal.name.as_str(),
                "Abendessen",
            ) {
                *abendausgabe_open = true;
                assert(ms.take(i + 1)[i as int] == mv);
            } else {
                let found = find_line(&lines, &meal.category);
                let ghost old_lines = lines@;
                assert(lines_view(old_lines).len() == old_lines.len());
                assert(menu_lines(before).len() == line_names(before).len());
                if let Some(j) = found {
                    assert(lines_view(old_lines)[j as int].name == old_lines[j as int].name@);
                    assert(line_names(before)[j as int] == mv.category);
                    let item = listed_meal(meal);
                    lines[j].meals.push(item);
                    assert(lines@[j as int].meals@ == old_lines[j as int].meals@.push(item));
                    assert(lines@[j as int].meals@.map_values(|m: MensaMeal| m@) =~= old_lines[j as int].meals@.map_values(|m: MensaMeal| m@).push(meal_of(mv)));
                    assert(lines_view(lines@) =~~= menu_lines(before).update(
                        j as int,
                        LineView { name: mv.category, meals: menu_lines(before)[j as int].meals.push(meal_of(mv)) },
                    ));
                } else {
                    assert(!line_names(before).contains(mv.category)) by {
                        if line_names(before).contains(mv.category) {
                            let k = choose|k: int| 0 <= k < line_names(before).len() && line_names(before)[k] == mv.category;
                            assert(lines_view(old_lines)[k].name == old_lines[k].name@);
                        }
                    }
                    let mut first: Vec<MensaMeal> = Vec::new();
                    first.push(listed_meal(meal));
                    lines.push(MensaLine { name: meal.category.clone(), meals: first });
                    assert(first@.map_values(|m: MensaMeal| m@) =~= seq![meal_of(mv)]);
                    assert(lines_view(lines@) =~~= menu_lines(before).push(
                        LineView { name: mv.category, meals: seq![meal_of(mv)] },
                    ));
                }
            }
        }
        assert(evening_served(ms.take(i + 1)) == (evening_served(before) || opens_evening(mv))) by {
            if evening_served(ms.take(i + 1)) {
                let k = choose|k: int| 0 <= k < i + 1 && opens_evening(#[trigger] ms.take(i + 1)[k]);
                if k < i {
                    assert(before[k] == ms.take(i + 1)[k]);
                }
            }
            if evening_served(before) {
                let k = choose|k: int| 0 <= k < i && opens_evening(#[trigger] before[k]);
                assert(before[k] == ms.take(i + 1)[k]);
            }
            if opens_evening(mv) {
                assert(ms.take(i + 1)[i as int] == mv);
            }
        }
    }
    assert(ms.take(n as int) =~= ms);
    lines
}


/// A row of the menu that shows one meal: the (possibly shortened) name,
/// `padding` spaces and the price column.
#[derive(Debug, PartialEq, Eq)]
pub struct MealRow {
    pub name: String,
    pub padding: usize,
    pub price: String,
}

/// What a meal row shows.
pub struct MealRowView {
    pub name: Seq<char>,
    pub padding: int,
    pub price: Seq<char>,
}

impl View for MealRow {
    type V = MealRowView;

    open spec fn view(&self) -> MealRowView {
        MealRowView { name: self.name@, padding: self.padding as int, price: self.price@ }
    }
}

/// The price, in cents, of a meal sold by weight, whose price column reads
/// ` 100g ` in place of the leading spaces.
pub const PRICE_PER_100G_CENTS: i64 = 110;

/// A run of `n` spaces.
pub open spec fn spaces(n: nat) -> Seq<char> {
    Seq::new(n, |i: int| ' ')
}

/// The price column: `price_padding` spaces (` 100g ` for meals sold by
/// weight) followed by the price with two decimals.
pub open spec fn price_column(cents: int, price_padding: nat) -> Seq<char> {
    (if cents == PRICE_PER_100G_CENTS { " 100g "@ } else { spaces(price_padding) }) + price_text(cents)
}

/// The ` 100g ` label appears exactly for meals priced at 1.10: every other
/// price column is `price_padding` spaces followed by the price with two
/// decimals, and so is every meal row's price.
pub proof fn law_per_100g_label(m: MealView, price_padding: nat, width: nat)
    ensures
        m.price != 110 ==> price_column(m.price, price_padding) == spaces(price_padding) + price_text(m.price),
        m.price == 110 ==> price_column(m.price, price_padding) == " 100g "@ + price_text(m.price),
        m.price != 110 ==> meal_row(m, price_padding, width).price == spaces(price_padding) + price_text(m.price),
        m.price == 110 ==> meal_row(m, price_padding, width).price == " 100g "@ + price_text(110),
{
}

/// The value of `x as i16`: the low sixteen bits read in two's complement.
pub open spec fn wrap_i16(x: int) -> int {
    let r = x % 65536;
    if r >= 32768 { r - 65536 } else { r }
}

/// The number of columns that a meal takes unshortened: its name and its
/// price column.
pub open spec fn meal_text_len(m: MealView, price_padding: nat) -> int {
    (m.name.len() + price_column(m.price, price_padding).len()) as int
}

/// Whether the name is kept whole: the width, less the meal's text, is
/// positive when both are read as `i16`.
pub open spec fn meal_name_fits(m: MealView, price_padding: nat, width: nat) -> bool {
    wrap_i16(width as int) - wrap_i16(meal_text_len(m, price_padding)) > 0
}

/// The meal row can be computed: the lengths fit in a `usize`, their
/// difference as `i16` values fits in an `i16`, the width covers the meal's
/// text when the name is kept whole, and covers the price column and `...`
/// when the name is shortened.
pub open spec fn meal_row_fits(m: MealView, price_padding: nat, width: nat) -> bool {
    let len = meal_text_len(m, price_padding);
    let d = wrap_i16(width as int) - wrap_i16(len);
    &&& len <= usize::MAX
    &&& -32768 <= d <= 32767
    &&& (d > 0 ==> width >= len)
    &&& (d <= 0 ==> width >= price_column(m.price, price_padding).len() + 3)
}

/// The row of a meal in the given width: the whole name and the spaces that
/// push the price column to the right edge; or, when the name does not fit,
/// as many of its first characters as leave room for `...` and the price
/// column, then `...`, and no spaces.
pub open spec fn meal_row(m: MealView, price_padding: nat, width: nat) -> MealRowView {
    let price = price_column(m.price, price_padding);
    if meal_name_fits(m, price_padding, width) {
        MealRowView { name: m.name, padding: width - meal_text_len(m, price_padding), price }
    } else {
        let keep = width - price.len() - 3;
        let kept = if keep < m.name.len() { m.name.take(keep) } else { m.name };
        MealRowView { name: kept + "..."@, padding: 0, price }
    }
}

fn wrap_to_i16(x: usize) -> (r: i32)
    ensures
        r == wrap_i16(x as int),
{
    let low: u32 = (x % 65536) as u32;
    if low >= 32768 {
        low as i32 - 65536
    } else {
        low as i32
    }
}

/// Whether the row of a meal can be laid out in the given width.
pub fn meal_fits(meal: &MensaMeal, price_padding_length: usize, width: usize) -> (fits: bool)
    ensures
        fits == meal_row_fits(meal@, price_padding_length as nat, width as nat),
{
    let price_len = format_price(meal.price).as_str().unicode_len() as u128;
    let padding_len: u128 = if meal.price == PRICE_PER_100G_CENTS {
        6
    } else {
        price_padding_length as u128
    };
    proof {
        reveal_strlit(" 100g ");
    }
    let column = padding_len + price_len;
    assert(column == price_column(meal.price as int, price_padding_length as nat).len());
    let len = meal.name.as_str().unicode_len() as u128 + column;
    if len > usize::MAX as u128 {
        return false;
    }
    let d = wrap_to_i16(width) - wrap_to_i16(len as usize);
    if d < -32768 || d > 32767 {
        return false;
    }
    if d > 0 {
        width as u128 >= len
    } else {
        width as u128 >= column + 3
    }
}

/// Lays out the row of one meal in a panel of the given width.
pub fn render_meal(meal: &MensaMeal, price_padding_length: usize, width: usize) -> (row: MealRow)
    requires
        meal_row_fits(meal@, price_padding_length as nat, width as nat),
    ensures
        row@ == meal_row(meal@, price_padding_length as nat, width as nat),
{
    let mut price_padding = String::new();
    if meal.price == PRICE_PER_100G_CENTS {
        price_padding = String::from_str(" 100g ");
    } else {
        let mut k: usize = 0;
        while k < price_padding_length
            invariant
                k <= price_padding_length,
                price_padding@ == spaces(k as nat),
            decreases price_padding_length - k,
        {
            push_char(&mut price_padding, ' ');
            k = k + 1;
            assert(price_padding@ =~= spaces(k as nat));
        }
    }
    let price_text_string = format_price(meal.price);
    let price_string = price_padding.concat(price_text_string.as_str());
    assert(price_string@ == price_column(meal.price as int, price_padding_length as nat));
    let price_len = price_string.as_str().unicode_len();
    let name_len = meal.name.as_str().unicode_len();
    let len = name_len + price_len;
    if wrap_to_i16(width) - wrap_to_i16(len) > 0 {
        MealRow { name: meal.name.clone(), padding: width - len, price: price_string }
    } else {
        let name_length = width - (price_len + 3);
        let keep = if name_length < name_len { name_length } else { name_len };
        let trimmed = meal.name.as_str().substring_char(0, keep);
        let name = String::from_str(trimmed).concat("...");
        proof {
            if name_length < name_len {
                assert(trimmed@ =~= meal.name@.take(name_length as int));
            } else {
                assert(trimmed@ =~= meal.name@);
            }
        }
        MealRow { name, padding: 0, price: price_string }
    }
}


/// The message shown when the menu has no serving lines.
pub const NO_MEALS_TODAY: &'static str = "Die Mensa hat heute nicht offen :(";

/// The number of spaces in front of a price.
pub const PRICE_PADDING_LENGTH: usize = 6;

/// A row of the menu panel.
#[derive(Debug, PartialEq, Eq)]
pub enum MensaRow {
    /// A row holding one space.
    Blank,
    /// The message that the canteen is closed today.
    Closed,
    /// The name of a serving line.
    Title(String),
    /// A meal.
    Meal(MealRow),
}

/// What a row of the menu panel shows.
pub enum MensaRowView {
    Blank,
    Closed,
    Title(Seq<char>),
    Meal(MealRowView),
}

impl View for MensaRow {
    type V = MensaRowView;

    open spec fn view(&self) -> MensaRowView {
        match self {
            MensaRow::Blank => MensaRowView::Blank,
            MensaRow::Closed => MensaRowView::Closed,
            MensaRow::Title(t) => MensaRowView::Title(t@),
            MensaRow::Meal(m) => MensaRowView::Meal(m@),
        }
    }
}

/// The views of a sequence of menu rows.
pub open spec fn mensa_rows_view(rows: Seq<MensaRow>) -> Seq<MensaRowView> {
    rows.map_values(|r: MensaRow| r@)
}

/// One row per meal, in order.
pub open spec fn meal_rows(ms: Seq<MealView>, width: nat) -> Seq<MensaRowView> {
    ms.map_values(|m: MealView| MensaRowView::Meal(meal_row(m, PRICE_PADDING_LENGTH as nat, width)))
}

/// The rows of one serving line: its name, one row per meal, and a blank row.
pub open spec fn line_rows(l: LineView, width: nat) -> Seq<MensaRowView> {
    seq![MensaRowView::Title(l.name)] + meal_rows(l.meals, width) + seq![MensaRowView::Blank]
}

/// The rows of the serving lines, one line after the other.
pub open spec fn lines_rows(ls: Seq<LineView>, width: nat) -> Seq<MensaRowView>
    decreases ls.len(),
{
    if ls.len() == 0 {
        seq![]
    } else {
        lines_rows(ls.drop_last(), width) + line_rows(ls.last(), width)
    }
}

/// The rows of the menu panel: a blank row, the closed message when there
/// are no serving lines, then the rows of the lines.
pub open spec fn menu_panel_rows(ls: Seq<LineView>, width: nat) -> Seq<MensaRowView> {
    seq![MensaRowView::Blank] + (if ls.len() == 0 {
        seq![MensaRowView::Closed]
    } else {
        Seq::<MensaRowView>::empty()
    }) + lines_rows(ls, width)
}

/// Every meal of every line can be laid out in the width.
pub open spec fn menu_fits(ls: Seq<LineView>, width: nat) -> bool {
    forall|i: int, j: int|
        0 <= i < ls.len() && 0 <= j < ls[i].meals.len() ==> meal_row_fits(
            #[trigger] ls[i].meals[j],
            PRICE_PADDING_LENGTH as nat,
            width,
        )
}

/// The menu panel: the serving lines of the day.
pub struct MensaWidget {
    pub lines: Vec<MensaLine>,
}

impl MensaWidget {
    /// Whether every meal can be laid out in the given width.
    pub fn fits(&self, width: u16) -> (fits: bool)
        ensures
            fits == menu_fits(lines_view(self.lines@), width as nat),
    {
        let ghost ls = lines_view(self.lines@);
        let w = width as usize;
        for i in 0..self.lines.len()
            invariant
                ls == lines_view(self.lines@),
                w == width as usize,
                forall|a: int, b: int|
                    0 <= a < i && 0 <= b < ls[a].meals.len() ==> meal_row_fits(
                        #[trigger] ls[a].meals[b],
                        PRICE_PADDING_LENGTH as nat,
                        width as nat,
                    ),
        {
            let line = &self.lines[i];
            assert(ls[i as int] == line@);
            for j in 0..line.meals.len()
                invariant
                    ls == lines_view(self.lines@),
                    w == width as usize,
                    i < ls.len(),
                    ls[i as int] == line@,
                    forall|a: int, b: int|
                        0 <= a < i && 0 <= b < ls[a].meals.len() ==> meal_row_fits(
                            #[trigger] ls[a].meals[b],
                            PRICE_PADDING_LENGTH as nat,
                            width as nat,
                        ),
                    forall|b: int|
                        0 <= b < j ==> meal_row_fits(
                            #[trigger] ls[i as int].meals[b],
                            PRICE_PADDING_LENGTH as nat,
                            width as nat,
                        ),
            {
                assert(ls[i as int].meals[j as int] == line.meals@[j as int]@);
                if !meal_fits(&line.meals[j], PRICE_PADDING_LENGTH, w) {
                    return false;
                }
            }
        }
        true
    }

    /// The rows of the menu panel for an area of the given width.
    pub fn render_rows(&self, width: u16) -> (rows: Vec<MensaRow>)
        requires
            menu_fits(lines_view(self.lines@), width as nat),
        ensures
            mensa_rows_view(rows@) == menu_panel_rows(lines_view(self.lines@), width as nat),
    {
        let ghost ls = lines_view(self.lines@);
        let w = width as usize;
        let mut rows: Vec<MensaRow> = Vec::new();
        rows.push(MensaRow::Blank);
        if self.lines.len() == 0 {
            rows.push(MensaRow::Closed);
        }
        let ghost head = mensa_rows_view(rows@);
        assert(head =~= seq![MensaRowView::Blank] + (if ls.len() == 0 {
            seq![MensaRowView::Closed]
        } else {
            Seq::<MensaRowView>::empty()
        }));
        assert(ls.take(0) =~= Seq::<LineView>::empty());
        for i in 0..self.lines.len()
            invariant
                ls == lines_view(self.lines@),
                w == width as usize,
                menu_fits(ls, width as nat),
                mensa_rows_view(rows@) == head + lines_rows(ls.take(i as int), width as nat),
        {
            let line = &self.lines[i];
            let ghost lv = ls[i as int];
            assert(lv == line@);
            let ghost before = mensa_rows_view(rows@);
            let ghost prev_rows = rows@;
            rows.push(MensaRow::Title(line.name.clone()));
            assert(mensa_rows_view(rows@) =~= mensa_rows_view(prev_rows).push(MensaRowView::Title(lv.name)));
            assert(lv.meals.take(0) =~= Seq::<MealView>::empty());
            let m = line.meals.len();
            for j in 0..m
                invariant
                    ls == lines_view(self.lines@),
                    w == width as usize,
                    menu_fits(ls, width as nat),
                    lv == line@,
                    lv == ls[i as int],
                    i < ls.len(),
                    m == lv.meals.len(),
                    mensa_rows_view(rows@) == before + seq![MensaRowView::Title(lv.name)]
                        + meal_rows(lv.meals.take(j as int), width as nat),
            {
                assert(lv.meals[j as int] == line.meals@[j as int]@);
                assert(meal_row_fits(ls[i as int].meals[j as int], PRICE_PADDING_LENGTH as nat, width as nat));
                let row = render_meal(&line.meals[j], PRICE_PADDING_LENGTH, w);
                let ghost prev_rows = rows@;
                let ghost row_view = MensaRowView::Meal(row@);
                rows.push(MensaRow::Meal(row));
                assert(mensa_rows_view(rows@) =~= mensa_rows_view(prev_rows).push(row_view));
                assert(lv.meals.take(j + 1) =~= lv.meals.take(j as int).push(lv.meals[j as int]));
                assert(meal_rows(lv.meals.take(j + 1), width as nat) =~= meal_rows(lv.meals.take(j as int), width as nat).push(
                    MensaRowView::Meal(meal_row(lv.meals[j as int], PRICE_PADDING_LENGTH as nat, width as nat))));
                assert(mensa_rows_view(rows@) =~~= before + seq![MensaRowView::Title(lv.name)]
                    + meal_rows(lv.meals.take(j + 1), width as nat));
            }
            let ghost prev_rows = rows@;
            rows.push(MensaRow::Blank);
            assert(mensa_rows_view(rows@) =~= mensa_rows_view(prev_rows).push(MensaRowView::Blank));
            assert(lv.meals.take(m as int) =~= lv.meals);
            assert(ls.take(i + 1).drop_last() =~= ls.take(i as int));
            assert(ls.take(i + 1).last() == lv);
            assert(mensa_rows_view(rows@) =~~= head + lines_rows(ls.take(i + 1), width as nat));
        }
        assert(ls.take(self.lines@.len() as int) =~= ls);
        rows
    }
}


/// The name under which the canteen is shown.
pub const MENSA_NAME: &'static str = "Mensa am Adenauer Ring";

/// The canteen as the reply of the menu service of the day describes it.
pub fn get_meals_today(response: Vec<JsonMensaMeal>) -> (m: Mensa)
    ensures
        m.name@ == MENSA_NAME@,
        lines_view(m.lines@) == menu_lines(json_meals_view(response@)),
        m.abendausgabe_open == evening_served(json_meals_view(response@)),
{
    let mut abendausgabe_open = false;
    let lines = parse_mensa_meals_to_line(response, &mut abendausgabe_open);
    Mensa { name: String::from_str(MENSA_NAME), lines, abendausgabe_open }
}

/// Whether a character is white space, as `char::is_whitespace` decides: the
/// characters with the Unicode `White_Space` property.
pub open spec fn is_white_space(c: char) -> bool {
    let v = c as u32;
    ||| 0x09 <= v <= 0x0D
    ||| v == 0x20
    ||| v == 0x85
    ||| v == 0xA0
    ||| v == 0x1680
    ||| 0x2000 <= v <= 0x200A
    ||| v == 0x2028
    ||| v == 0x2029
    ||| v == 0x202F
    ||| v == 0x205F
    ||| v == 0x3000
}

/// Whether a character is white space (Unicode `White_Space`).
pub fn char_is_whitespace(c: char) -> (b: bool)
    ensures
        b == is_white_space(c),
{
    let v = c as u32;
    (0x09 <= v && v <= 0x0D) || v == 0x20 || v == 0x85 || v == 0xA0 || v == 0x1680 || (0x2000 <= v
        && v <= 0x200A) || v == 0x2028 || v == 0x2029 || v == 0x202F || v == 0x205F || v == 0x3000
}

/// `s[a..b]` is the first whitespace-separated word of `s`.
pub open spec fn first_word_at(s: Seq<char>, a: int, b: int) -> bool {
    &&& 0 <= a < b <= s.len()
    &&& forall|i: int| 0 <= i < a ==> is_white_space(#[trigger] s[i])
    &&& forall|i: int| a <= i < b ==> !is_white_space(#[trigger] s[i])
    &&& (b < s.len() ==> is_white_space(s[b]))
}

/// The address of the day's meals: the service address, the date (the first
/// word of the printed local time, as in `2024-05-06 12:00:00 +02:00`) and
/// `/meals`. `None` when the time text holds no word.
pub fn meals_url(base: &str, now_text: &str) -> (url: Option<String>)
    ensures
        url is None <==> forall|i: int| 0 <= i < now_text@.len() ==> is_white_space(#[trigger] now_text@[i]),
        url matches Some(u) ==> exists|a: int, b: int|
            first_word_at(now_text@, a, b) && u@ == base@ + now_text@.subrange(a, b) + "/meals"@,
{
    let cs = chars_of(now_text);
    let n = cs.len();
    let mut a: usize = 0;
    while a < n && char_is_whitespace(cs[a])
        invariant
            cs@ == now_text@,
            n == cs@.len(),
            a <= n,
            forall|i: int| 0 <= i < a ==> is_white_space(#[trigger] now_text@[i]),
        decreases n - a,
    {
        a = a + 1;
    }
    if a == n {
        return None;
    }
    let mut b: usize = a + 1;
    while b < n && !char_is_whitespace(cs[b])
        invariant
            cs@ == now_text@,
            n == cs@.len(),
            a < b <= n,
            !is_white_space(now_text@[a as int]),
            forall|i: int| a <= i < b ==> !is_white_space(#[trigger] now_text@[i]),
        decreases n - b,
    {
        b = b + 1;
    }
    let mut url = String::from_str(base);
    let mut k: usize = a;
    while k < b
        invariant
            cs@ == now_text@,
            a <= k <= b <= n,
            n == cs@.len(),
            url@ == base@ + now_text@.subrange(a as int, k as int),
        decreases b - k,
    {
        push_char(&mut url, cs[k]);
        k = k + 1;
        assert(url@ =~= base@ + now_text@.subrange(a as int, k as int));
    }
    url.append("/meals");
    assert(first_word_at(now_text@, a as int, b as int));
    Some(url)
}

} // verus!
