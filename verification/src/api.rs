//! Monthly database files: their names (`MM-YYYY.db`), which directory
//! entries are databases, and the labels (`Mon YYYY`) the reports page shows.
use vstd::prelude::*;
use crate::text::{
    after_char, before_char, decimal, ends_with, find_char, has_suffix, int_decimal, int_text,
    lemma_decimal_digits, lemma_decimal_small, lemma_find_char_absent, lemma_find_char_bounds,
    lemma_split_char_nonempty, nat_text, pad_front, pad_start, same_text, split_char, split_on,
    text_before_char,
};

verus! {

/// The month label for a two-digit month code `01`..`12`.
pub open spec fn month_label(code: Seq<char>) -> Option<Seq<char>> {
    if code == seq!['0', '1'] {
        Some(seq!['J', 'a', 'n'])
    } else if code == seq!['0', '2'] {
        Some(seq!['F', 'e', 'b'])
    } else if code == seq!['0', '3'] {
        Some(seq!['M', 'a', 'r'])
    } else if code == seq!['0', '4'] {
        Some(seq!['A', 'p', 'r'])
    } else if code == seq!['0', '5'] {
        Some(seq!['M', 'a', 'y'])
    } else if code == seq!['0', '6'] {
        Some(seq!['J', 'u', 'n'])
    } else if code == seq!['0', '7'] {
        Some(seq!['J', 'u', 'l'])
    } else if code == seq!['0', '8'] {
        Some(seq!['A', 'u', 'g'])
    } else if code == seq!['0', '9'] {
        Some(seq!['S', 'e', 'p'])
    } else if code == seq!['1', '0'] {
        Some(seq!['O', 'c', 't'])
    } else if code == seq!['1', '1'] {
        Some(seq!['N', 'o', 'v'])
    } else if code == seq!['1', '2'] {
        Some(seq!['D', 'e', 'c'])
    } else {
        None
    }
}

/// The label of a database file name: the part before the first `-` is the
/// month code, the year is what follows it up to the next `-` or `.`.
/// `None` when the name has no `-` or its month code is not `01`..`12`.
pub open spec fn db_label(file: Seq<char>) -> Option<Seq<char>> {
    let parts = split_char(file, '-');
    if parts.len() < 2 {
        None
    } else {
        match month_label(parts[0]) {
            None => None,
            Some(month) => Some(month + seq![' '] + before_char(parts[1], '.')),
        }
    }
}

fn month_label_of(code: &str) -> (r: Option<&'static str>)
    ensures
        r.deep_view() == month_label(code@),
{
    proof {
        reveal_strlit("01");
        reveal_strlit("02");
        reveal_strlit("03");
        reveal_strlit("04");
        reveal_strlit("05");
        reveal_strlit("06");
        reveal_strlit("07");
        reveal_strlit("08");
        reveal_strlit("09");
        reveal_strlit("10");
        reveal_strlit("11");
        reveal_strlit("12");
        reveal_strlit("Jan");
        reveal_strlit("Feb");
        reveal_strlit("Mar");
        reveal_strlit("Apr");
        reveal_strlit("May");
        reveal_strlit("Jun");
        reveal_strlit("Jul");
        reveal_strlit("Aug");
        reveal_strlit("Sep");
        reveal_strlit("Oct");
        reveal_strlit("Nov");
        reveal_strlit("Dec");
        assert("01"@ =~= seq!['0', '1']);
        assert("02"@ =~= seq!['0', '2']);
        assert("03"@ =~= seq!['0', '3']);
        assert("04"@ =~= seq!['0', '4']);
        assert("05"@ =~= seq!['0', '5']);
        assert("06"@ =~= seq!['0', '6']);
        assert("07"@ =~= seq!['0', '7']);
        assert("08"@ =~= seq!['0', '8']);
        assert("09"@ =~= seq!['0', '9']);
        assert("10"@ =~= seq!['1', '0']);
        assert("11"@ =~= seq!['1', '1']);
        assert("12"@ =~= seq!['1', '2']);
        assert("Jan"@ =~= seq!['J', 'a', 'n']);
        assert("Feb"@ =~= seq!['F', 'e', 'b']);
        assert("Mar"@ =~= seq!['M', 'a', 'r']);
        assert("Apr"@ =~= seq!['A', 'p', 'r']);
        assert("May"@ =~= seq!['M', 'a', 'y']);
        assert("Jun"@ =~= seq!['J', 'u', 'n']);
        assert("Jul"@ =~= seq!['J', 'u', 'l']);
        assert("Aug"@ =~= seq!['A', 'u', 'g']);
        assert("Sep"@ =~= seq!['S', 'e', 'p']);
        assert("Oct"@ =~= seq!['O', 'c', 't']);
        assert("Nov"@ =~= seq!['N', 'o', 'v']);
        assert("Dec"@ =~= seq!['D', 'e', 'c']);
    }
    if same_text(code, "01") {
        Some("Jan")
    } else if same_text(code, "02") {
        Some("Feb")
    } else if same_text(code, "03") {
        Some("Mar")
    } else if same_text(code, "04") {
        Some("Apr")
    } else if same_text(code, "05") {
        Some("May")
    } else if same_text(code, "06") {
        Some("Jun")
    } else if same_text(code, "07") {
        Some("Jul")
    } else if same_text(code, "08") {
        Some("Aug")
    } else if same_text(code, "09") {
        Some("Sep")
    } else if same_text(code, "10") {
        Some("Oct")
    } else if same_text(code, "11") {
        Some("Nov")
    } else if same_text(code, "12") {
        Some("Dec")
    } else {
        None
    }
}

/// The label of one database file name, or `None` for a name that has no
/// `-` or whose month code is not `01`..`12`.
pub fn db_file_label(file: &str) -> (r: Option<String>)
    ensures
        r.deep_view() == db_label(file@),
{
    let parts = split_on(file, '-');
    if parts.len() < 2 {
        return None;
    }
    proof {
        assert(parts.deep_view()[0] == parts@[0]@);
        assert(parts.deep_view()[1] == parts@[1]@);
    }
    match month_label_of(parts[0].as_str()) {
        None => None,
        Some(month) => {
            let mut r = month.to_owned();
            r.append(" ");
            let year = text_before_char(parts[1].as_str(), '.');
            r.append(year.as_str());
            proof {
                reveal_strlit(" ");
                assert(" "@ =~= seq![' ']);
            }
            Some(r)
        },
    }
}

/// Whether every name in the list has a label.
pub open spec fn all_labelled(files: Seq<Seq<char>>) -> bool {
    forall|i: int| 0 <= i < files.len() ==> (#[trigger] db_label(files[i])) is Some
}

/// The labels (`Mon YYYY`) of database file names (`MM-YYYY.db`), in order.
pub fn formated_list_db_files(db_files: Vec<String>) -> (r: Vec<String>)
    requires
        all_labelled(db_files.deep_view()),
    ensures
        r@.len() == db_files@.len(),
        forall|i: int|
            0 <= i < r@.len() ==> Some(#[trigger] r@[i]@) == db_label(db_files@[i]@),
{
    let mut r: Vec<String> = Vec::new();
    let n = db_files.len();
    let mut i: usize = 0;
    while i < n
        invariant
            n == db_files@.len(),
            i <= n,
            all_labelled(db_files.deep_view()),
            r@.len() == i,
            forall|j: int| 0 <= j < i ==> Some(#[trigger] r@[j]@) == db_label(db_files@[j]@),
        decreases n - i,
    {
        assert(db_files.deep_view()[i as int] == db_files@[i as int]@);
        let label = db_file_label(db_files[i].as_str());
        match label {
            Some(l) => r.push(l),
            None => {
                assert(false);
                r.push(String::new());
            },
        }
        i = i + 1;
    }
    r
}

/// The names, in order, that end with `.db`.
pub open spec fn db_files_among(names: Seq<Seq<char>>) -> Seq<Seq<char>>
    decreases names.len(),
{
    if names.len() == 0 {
        Seq::empty()
    } else {
        let rest = db_files_among(names.drop_last());
        if has_suffix(names.last(), ".db"@) {
            rest.push(names.last())
        } else {
            rest
        }
    }
}

/// Whether a directory entry name is that of a database file.
pub open spec fn is_db_name(name: Seq<char>) -> bool {
    has_suffix(name, ".db"@)
}

/// The database files among the names are exactly the names ending with
/// `.db`, in their order: the standard filter of the sequence by that suffix.
pub proof fn lemma_db_files_are_the_filter(names: Seq<Seq<char>>)
    ensures
        db_files_among(names) == names.filter(|n: Seq<char>| is_db_name(n)),
    decreases names.len(),
{
    reveal_with_fuel(Seq::<_>::filter, 1);
    if names.len() > 0 {
        lemma_db_files_are_the_filter(names.drop_last());
    }
}

/// Each name ending with `.db` is kept and every kept name ends with `.db`,
/// whatever names stand around it; nothing is added.
pub proof fn lemma_db_files_keep_every_db_name(names: Seq<Seq<char>>)
    ensures
        forall|i: int|
            0 <= i < names.len() && is_db_name(#[trigger] names[i]) ==> db_files_among(
                names,
            ).contains(names[i]),
        forall|n: Seq<char>|
            #[trigger] db_files_among(names).contains(n) <==> names.contains(n) && is_db_name(n),
{
    lemma_db_files_are_the_filter(names);
    let pred = |n: Seq<char>| is_db_name(n);
    assert forall|n: Seq<char>| #[trigger] db_files_among(names).contains(n) <==> names.contains(n)
        && is_db_name(n) by {
        if names.contains(n) && is_db_name(n) {
            let i = choose|i: int| 0 <= i < names.len() && names[i] == n;
            names.lemma_filter_contains(pred, i);
        }
        if db_files_among(names).contains(n) {
            let k = choose|k: int| 0 <= k < names.filter(pred).len() && names.filter(pred)[k] == n;
            names.lemma_filter_pred(pred, k);
            names.lemma_filter_contains_rev(pred, n);
        }
    }
    assert forall|i: int| 0 <= i < names.len() && is_db_name(#[trigger] names[i]) implies db_files_among(
        names,
    ).contains(names[i]) by {
        names.lemma_filter_contains(pred, i);
    }
}

/// Keeps the directory entries whose names end with `.db`, in order.
pub fn select_db_files(names: Vec<String>) -> (r: Vec<String>)
    ensures
        r.deep_view() == db_files_among(names.deep_view()),
        r.deep_view() == names.deep_view().filter(|n: Seq<char>| is_db_name(n)),
{
    let mut r: Vec<String> = Vec::new();
    let n = names.len();
    let mut i: usize = 0;
    while i < n
        invariant
            n == names@.len(),
            i <= n,
            r.deep_view() == db_files_among(names.deep_view().take(i as int)),
        decreases n - i,
    {
        let ghost before = r.deep_view();
        let ghost prefix = names.deep_view().take(i + 1);
        assert(prefix.drop_last() =~= names.deep_view().take(i as int));
        assert(prefix.last() == names@[i as int]@);
        if ends_with(names[i].as_str(), ".db") {
            let name = names[i].clone();
            r.push(name);
            assert(r.deep_view() =~= before.push(names@[i as int]@));
        }
        i = i + 1;
    }
    assert(names.deep_view().take(n as int) =~= names.deep_view());
    proof {
        lemma_db_files_are_the_filter(names.deep_view());
    }
    r
}

/// The file name of the database for a month: `{:02}-{}.db` of month and year.
pub open spec fn db_file_text(month: nat, year: int) -> Seq<char> {
    pad_front(decimal(month), 2, '0') + seq!['-'] + int_decimal(year) + seq!['.', 'd', 'b']
}

/// The file name of the database for a month (`MM-YYYY.db`).
pub fn db_file_name(month: u32, year: i32) -> (r: String)
    ensures
        r@ == db_file_text(month as nat, year as int),
{
    let m = nat_text(month as u64);
    let mut r = pad_start(m.as_str(), 2, '0');
    r.append("-");
    let y = int_text(year as i64);
    r.append(y.as_str());
    r.append(".db");
    proof {
        reveal_strlit("-");
        reveal_strlit(".db");
        assert("-"@ =~= seq!['-']);
        assert(".db"@ =~= seq!['.', 'd', 'b']);
    }
    r
}

/// The file name of the database for the current month in UTC.
pub fn current_db_file_name() -> (r: String)
    ensures
        exists|t: crate::clock::LocalDateTime|
            t.wf() && r@ == db_file_text(t.month as nat, t.year as int),
        exists|t: crate::clock::LocalDateTime|
            #[trigger] crate::clock::is_utc_reading(t) && r@ == db_file_text(
                t.month as nat,
                t.year as int,
            ),
{
    let now = crate::clock::read_clock().utc;
    let r = db_file_name(now.month, now.year);
    proof {
        assert(crate::clock::is_utc_reading(now));
    }
    r
}

/// The numeral of a year from 1000 on has at least four digits.
proof fn lemma_decimal_four_digits(n: nat)
    requires
        n >= 1000,
    ensures
        decimal(n).len() >= 4,
{
    assert(decimal(n) == decimal(n / 10).push(crate::text::digit_char(n % 10)));
    assert(decimal(n / 10) == decimal(n / 100).push(crate::text::digit_char((n / 10) % 10)))
        by {
        assert(n / 10 / 10 == n / 100);
    }
    assert(decimal(n / 100) == decimal(n / 1000).push(crate::text::digit_char((n / 100) % 10)))
        by {
        assert(n / 100 / 10 == n / 1000);
    }
    lemma_decimal_digits(n / 1000);
}

/// The database of the month a clock reading falls in is named with the whole
/// year: for any UTC time a clock reading gives, the year is at least 1970 and
/// written with at least four digits, and the file name is labelled with the
/// month's name and that year.
pub proof fn lemma_current_db_file_has_full_year(t: crate::clock::LocalDateTime)
    requires
        crate::clock::is_utc_reading(t),
    ensures
        t.year >= 1970,
        decimal(t.year as nat).len() >= 4,
        db_label(db_file_text(t.month as nat, t.year as int)) == Some(
            month_abbrev(t.month as nat) + seq![' '] + decimal(t.year as nat),
        ),
{
    crate::clock::lemma_readings_start_in_1970(t);
    lemma_decimal_four_digits(t.year as nat);
    lemma_label_of_db_file_name(t.month as nat, t.year as int);
}

/// The folder that holds the monthly databases.
pub const DB_FOLDER: &'static str = "databases";

/// The path of a database file inside the database folder.
pub fn database_path(file: &str) -> (r: String)
    ensures
        r@ == crate::http::join_path(DB_FOLDER@, file@),
{
    crate::http::path_join(DB_FOLDER, file)
}

/// The month code for a month number: two digits.
pub open spec fn month_code(month: nat) -> Seq<char> {
    pad_front(decimal(month), 2, '0')
}

/// The three-letter name of a month number.
pub open spec fn month_abbrev(month: nat) -> Seq<char> {
    month_label(month_code(month))->0
}

proof fn lemma_month_code(month: nat)
    requires
        1 <= month <= 12,
    ensures
        month_code(month).len() == 2,
        month_code(month)[0] != '-' && month_code(month)[1] != '-',
        month_label(month_code(month)) is Some,
{
    lemma_decimal_small(month);
    if month < 10 {
        assert(decimal(month) == seq![crate::text::digit_char(month)]);
        assert(month_code(month) =~= seq!['0', crate::text::digit_char(month)]);
    } else {
        assert(decimal(month) == decimal(month / 10).push(crate::text::digit_char(month % 10)));
        assert(decimal(month / 10) == seq![crate::text::digit_char(month / 10)]);
        assert(month_code(month) =~= seq!['1', crate::text::digit_char((month % 10) as nat)]);
    }
}

/// The second piece of a split is what follows the first separator, up to the next.
proof fn lemma_split_second(s: Seq<char>, c: char)
    requires
        find_char(s, c, 0) < s.len(),
    ensures
        split_char(s, c).len() >= 2,
        split_char(s, c)[1] == before_char(after_char(s, c), c),
{
    lemma_find_char_bounds(s, c, 0);
    let k = find_char(s, c, 0);
    lemma_split_char_nonempty(s.skip(k + 1), c);
}

/// A database named for a month gets that month's label back: the file name
/// `MM-YYYY.db` of month `m` (1 to 12) and a year that is not negative is
/// labelled with the month's three-letter name, a space and the year.
pub proof fn lemma_label_of_db_file_name(month: nat, year: int)
    requires
        1 <= month <= 12,
        0 <= year,
    ensures
        db_label(db_file_text(month, year)) == Some(
            month_abbrev(month) + seq![' '] + decimal(year as nat),
        ),
{
    let t = db_file_text(month, year);
    let code = month_code(month);
    let y = decimal(year as nat);
    lemma_month_code(month);
    lemma_decimal_digits(year as nat);
    assert(t =~= code + (seq!['-'] + y + seq!['.', 'd', 'b']));
    assert(t[2] == '-');
    assert(find_char(t, '-', 0) == 2) by {
        assert(t[0] != '-');
        assert(t[1] != '-');
        assert(find_char(t, '-', 2) == 2);
        assert(find_char(t, '-', 1) == 2);
    }
    lemma_split_second(t, '-');
    lemma_split_char_nonempty(t, '-');
    assert(before_char(t, '-') =~= code);
    let rest = after_char(t, '-');
    assert(rest =~= y + seq!['.', 'd', 'b']);
    assert forall|k: int| 0 <= k < rest.len() implies #[trigger] rest[k] != '-' by {
        if k < y.len() {
            assert(rest[k] == y[k]);
        }
    }
    lemma_find_char_absent(rest, '-', 0);
    assert(before_char(rest, '-') =~= rest);
    assert(find_char(rest, '.', y.len() as int) == y.len());
    assert forall|k: int| 0 <= k < y.len() implies #[trigger] rest[k] != '.' by {
        assert(rest[k] == y[k]);
    }
    lemma_find_char_bounds(rest, '.', 0);
    assert(find_char(rest, '.', 0) == y.len()) by {
        let f = find_char(rest, '.', 0);
        if f < y.len() {
            assert(rest[f] == y[f]);
        }
    }
    assert(before_char(rest, '.') =~= y);
}

/// Every monthly database file name ends with `.db`, so the listing of the
/// database folder keeps it.
pub proof fn lemma_db_file_name_is_listed(month: nat, year: int)
    ensures
        has_suffix(db_file_text(month, year), ".db"@),
{
    reveal_strlit(".db");
    let t = db_file_text(month, year);
    assert(".db"@ =~= seq!['.', 'd', 'b']);
    assert(t.len() >= 3);
    assert(t.skip(t.len() - 3) =~= seq!['.', 'd', 'b']);
}

} // verus!
