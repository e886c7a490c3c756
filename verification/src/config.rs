//! The lab's configuration: room, lab type, lab names and the person in
//! charge, and how the answers typed at the first start become one.
use vstd::prelude::*;
use crate::text::{
    all_ascii, ascii_lower, is_white_space, lemma_split_char_pieces, lemma_trimmed_chars_from,
    lemma_trimmed_has_no_outer_white, split_char, split_on, to_lowercase, trim, trimmed,
    unicode_lowercase,
};

verus! {

/// Whether the room holds one lab or two.
#[derive(Debug, Clone, Copy, PartialEq, Eq, Structural)]
pub enum LabType {
    Single,
    Double,
}

impl LabType {
    /// The name a lab type is shown with.
    pub open spec fn name(self) -> Seq<char> {
        match self {
            LabType::Single => "Single"@,
            LabType::Double => "Double"@,
        }
    }

    /// The name a lab type is shown with: `Single` or `Double`.
    pub fn to_string(&self) -> (r: String)
        ensures
            r@ == self.name(),
    {
        match self {
            LabType::Single => "Single".to_owned(),
            LabType::Double => "Double".to_owned(),
        }
    }
}

/// The configuration of the lab the logger runs in.
#[derive(Debug)]
pub struct Config {
    pub room_no: String,
    pub lab_type: LabType,
    pub lab_names: Vec<String>,
    pub lab_incharge: String,
}

/// The lab type a lowercased answer names, if any.
pub open spec fn lab_type_named(lower: Seq<char>) -> Option<LabType> {
    if lower == "single"@ {
        Some(LabType::Single)
    } else if lower == "double"@ {
        Some(LabType::Double)
    } else {
        None
    }
}

/// The lab type a lowercased answer names: `single` or `double`.
pub fn lab_type_from_lowercase(lower: &str) -> (r: Option<LabType>)
    ensures
        r == lab_type_named(lower@),
{
    if crate::text::same_text(lower, "single") {
        Some(LabType::Single)
    } else if crate::text::same_text(lower, "double") {
        Some(LabType::Double)
    } else {
        None
    }
}

/// The lab type chosen by an answer, compared without regard to case.
/// `None` for an answer that names neither type.
pub fn lab_type_from_choice(choice: &str) -> (r: Option<LabType>)
    ensures
        r == lab_type_named(unicode_lowercase(choice@)),
        all_ascii(choice@) ==> r == lab_type_named(choice@.map_values(|c: char| ascii_lower(c))),
{
    let lower = to_lowercase(choice);
    lab_type_from_lowercase(lower.as_str())
}

/// The lab names in an answer: the trimmed answer split at commas, each
/// piece trimmed.
pub open spec fn lab_names_of(answer: Seq<char>) -> Seq<Seq<char>> {
    split_char(trimmed(answer), ',').map_values(|p: Seq<char>| trimmed(p))
}

/// The lab names typed as one comma-separated answer.
pub fn parse_lab_names(answer: &str) -> (r: Vec<String>)
    ensures
        r.deep_view() == lab_names_of(answer@),
{
    let whole = trim(answer);
    let pieces = split_on(whole.as_str(), ',');
    let mut r: Vec<String> = Vec::new();
    let n = pieces.len();
    let mut i: usize = 0;
    while i < n
        invariant
            n == pieces@.len(),
            pieces.deep_view() == split_char(trimmed(answer@), ','),
            i <= n,
            r.deep_view() == lab_names_of(answer@).take(i as int),
        decreases n - i,
    {
        let name = trim(pieces[i].as_str());
        let ghost before = r.deep_view();
        assert(pieces.deep_view()[i as int] == pieces@[i as int]@);
        r.push(name);
        assert(r.deep_view() =~= before.push(name@));
        assert(lab_names_of(answer@).take(i + 1) =~= lab_names_of(answer@).take(i as int).push(
            name@,
        ));
        i = i + 1;
    }
    assert(lab_names_of(answer@).take(n as int) =~= lab_names_of(answer@));
    r
}

/// The configuration made of the answers to the first-start questions: the
/// room number, the chosen lab type, the comma-separated lab names and the
/// person in charge. `None` when the chosen lab type is neither `single` nor
/// `double` in any case.
pub fn config_from_answers(room: &str, lab_type: &str, names: &str, incharge: &str) -> (r: Option<
    Config,
>)
    ensures
        r is None <==> lab_type_named(unicode_lowercase(lab_type@)) is None,
        all_ascii(lab_type@) ==> (r is None <==> lab_type_named(
            lab_type@.map_values(|c: char| ascii_lower(c)),
        ) is None),
        all_ascii(lab_type@) ==> (r matches Some(c) ==> Some(c.lab_type) == lab_type_named(
            lab_type@.map_values(|c: char| ascii_lower(c)),
        )),
        r matches Some(c) ==> {
            &&& c.room_no@ == trimmed(room@)
            &&& Some(c.lab_type) == lab_type_named(unicode_lowercase(lab_type@))
            &&& c.lab_names.deep_view() == lab_names_of(names@)
            &&& c.lab_incharge@ == trimmed(incharge@)
        },
{
    let room_no = trim(room);
    match lab_type_from_choice(lab_type) {
        None => None,
        Some(t) => {
            let lab_names = parse_lab_names(names);
            let lab_incharge = trim(incharge);
            Some(Config { room_no, lab_type: t, lab_names, lab_incharge })
        },
    }
}

/// The lab names typed in one answer never hold a comma, and none starts or
/// ends with whitespace.
pub proof fn lemma_lab_names_clean(answer: Seq<char>)
    ensures
        forall|i: int, k: int|
            0 <= i < lab_names_of(answer).len() && 0 <= k < lab_names_of(answer)[i].len()
                ==> #[trigger] lab_names_of(answer)[i][k] != ',',
        forall|i: int|
            0 <= i < lab_names_of(answer).len() && #[trigger] lab_names_of(answer)[i].len() > 0
                ==> !is_white_space(lab_names_of(answer)[i][0]) && !is_white_space(
                lab_names_of(answer)[i][lab_names_of(answer)[i].len() - 1],
            ),
{
    let parts = split_char(trimmed(answer), ',');
    let names = lab_names_of(answer);
    lemma_split_char_pieces(trimmed(answer), ',');
    assert forall|i: int, k: int| 0 <= i < names.len() && 0 <= k < names[i].len() implies #[trigger] names[i][k]
        != ',' by {
        let p = parts[i];
        assert(names[i] == trimmed(p));
        lemma_trimmed_chars_from(p);
        let j = choose|j: int| 0 <= j < p.len() && p[j] == trimmed(p)[k];
        assert(parts[i][j] != ',');
    }
    assert forall|i: int| 0 <= i < names.len() && #[trigger] names[i].len() > 0 implies !is_white_space(
        names[i][0],
    ) && !is_white_space(names[i][names[i].len() - 1]) by {
        assert(names[i] == trimmed(parts[i]));
        lemma_trimmed_has_no_outer_white(parts[i]);
    }
}

} // verus!
