//! The terminal side of the logger: the start-up banner, the main menu, and
//! what a scanned or typed roll number leads to.
use vstd::prelude::*;
use crate::text::{
    all_ascii, ascii_lower, is_digit, push_char, push_repeated, repeat_char, same_text,
    to_lowercase, trim, trimmed, unicode_lowercase,
};

verus! {

/// Whether `c` is an ASCII capital letter.
pub open spec fn is_upper(c: char) -> bool {
    'A' <= c && c <= 'Z'
}

/// The shape of a roll number written in ASCII: five digits, a capital
/// letter, two digits, a capital letter or digit, and a digit.
pub open spec fn ascii_roll_shape(s: Seq<char>) -> bool {
    &&& s.len() == 10
    &&& forall|k: int| 0 <= k < 5 ==> is_digit(#[trigger] s[k])
    &&& is_upper(s[5])
    &&& is_digit(s[6])
    &&& is_digit(s[7])
    &&& (is_upper(s[8]) || is_digit(s[8]))
    &&& is_digit(s[9])
}

/// The pattern of a roll number, in the syntax of the regex crate.
pub const ROLL_NUMBER_PATTERN: &'static str = r"^\d{5}[A-Z]{1}\d{2}[A-Z\d]\d$";

/// Whether the text matches the roll-number pattern
/// `^\d{5}[A-Z]{1}\d{2}[A-Z\d]\d$` of the regex crate, where `\d` is any
/// Unicode decimal digit.
pub uninterp spec fn roll_pattern_match(s: Seq<char>) -> bool;

/// Matches the text against the roll-number pattern
/// `^\d{5}[A-Z]{1}\d{2}[A-Z\d]\d$` with the regex crate
/// (`Regex::new(pattern).unwrap().is_match(s)`). Every atom of the pattern
/// takes one character and `[A-Z]` only ASCII capitals, so a match is ten
/// characters long with a capital in the sixth place; on ASCII text `\d` is `0`..`9`, so the match is exactly
/// `ascii_roll_shape`. Which non-ASCII digits `\d` takes is left to the name.
#[verifier::external_body]
fn roll_pattern_matches(s: &str, pattern: &str) -> (r: bool)
    requires
        pattern@ == ROLL_NUMBER_PATTERN@,
    ensures
        r == roll_pattern_match(s@),
        r ==> s@.len() == 10 && is_upper(s@[5]),
        all_ascii(s@) ==> (r <==> ascii_roll_shape(s@)),
{
    regex::Regex::new(pattern).unwrap().is_match(s)
}

/// What a line typed at the roll-number prompt leads to.
#[derive(Debug)]
pub enum ScanAction {
    /// `q` (in any case): stop taking roll numbers.
    Quit,
    /// A roll number to record, trimmed.
    Record(String),
    /// Not a roll number.
    Invalid,
}

/// The mathematical content of a `ScanAction`.
pub enum ScanActionView {
    Quit,
    Record(Seq<char>),
    Invalid,
}

impl View for ScanAction {
    type V = ScanActionView;

    open spec fn view(&self) -> ScanActionView {
        match self {
            ScanAction::Quit => ScanActionView::Quit,
            ScanAction::Record(s) => ScanActionView::Record(s@),
            ScanAction::Invalid => ScanActionView::Invalid,
        }
    }
}

/// What a trimmed input leads to, given its lowercase form and whether it
/// matches the roll-number pattern.
pub open spec fn scan_action_of(input: Seq<char>, lower: Seq<char>, matched: bool) -> ScanActionView {
    if lower == "q"@ {
        ScanActionView::Quit
    } else if matched {
        ScanActionView::Record(input)
    } else {
        ScanActionView::Invalid
    }
}

/// Decides on a trimmed input from its lowercase form and the pattern match.
pub fn decide_scan(input: &str, lower: &str, matched: bool) -> (r: ScanAction)
    ensures
        r@ == scan_action_of(input@, lower@, matched),
{
    if same_text(lower, "q") {
        ScanAction::Quit
    } else if matched {
        ScanAction::Record(input.to_owned())
    } else {
        ScanAction::Invalid
    }
}

/// What a line typed at the roll-number prompt leads to: it is trimmed; `q`
/// in any case quits; a roll number is recorded; anything else is invalid.
pub fn scan_action(line: &str) -> (r: ScanAction)
    ensures
        r@ == scan_action_of(
            trimmed(line@),
            unicode_lowercase(trimmed(line@)),
            roll_pattern_match(trimmed(line@)),
        ),
        all_ascii(trimmed(line@)) ==> (roll_pattern_match(trimmed(line@)) <==> ascii_roll_shape(
            trimmed(line@),
        )),
        all_ascii(trimmed(line@)) ==> unicode_lowercase(trimmed(line@)) == trimmed(
            line@,
        ).map_values(|c: char| ascii_lower(c)),
{
    let input = trim(line);
    let lower = to_lowercase(input.as_str());
    let matched = roll_pattern_matches(input.as_str(), ROLL_NUMBER_PATTERN);
    decide_scan(input.as_str(), lower.as_str(), matched)
}

/// The main menu's choices, by position.
#[derive(Debug, PartialEq, Eq, Structural)]
pub enum MenuChoice {
    NewSession,
    ContinueSession,
    ManageReports,
    Leave,
}

/// The main-menu choice at a position of the list
/// new session / continue recent session / manage reports / exit.
pub fn menu_choice(selection: usize) -> (r: MenuChoice)
    ensures
        selection == 0 ==> r == MenuChoice::NewSession,
        selection == 1 ==> r == MenuChoice::ContinueSession,
        selection == 2 ==> r == MenuChoice::ManageReports,
        selection >= 3 ==> r == MenuChoice::Leave,
{
    if selection == 0 {
        MenuChoice::NewSession
    } else if selection == 1 {
        MenuChoice::ContinueSession
    } else if selection == 2 {
        MenuChoice::ManageReports
    } else {
        MenuChoice::Leave
    }
}

/// `text` centred in `width` characters (`{:^width$}`): the padding is
/// split with the smaller half on the left.
pub open spec fn centred(text: Seq<char>, width: nat) -> Seq<char> {
    if text.len() < width {
        let pad = (width - text.len()) as nat;
        repeat_char(' ', pad / 2) + text + repeat_char(' ', (pad - pad / 2) as nat)
    } else {
        text
    }
}

/// `text` centred in `width` characters.
pub fn centre(text: &str, width: usize) -> (r: String)
    ensures
        r@ == centred(text@, width as nat),
{
    let n = text.unicode_len();
    let mut r = String::new();
    if n < width {
        let pad = width - n;
        push_repeated(&mut r, ' ', pad / 2);
        r.append(text);
        push_repeated(&mut r, ' ', pad - pad / 2);
    } else {
        r.append(text);
    }
    r
}

/// The start-up banner for a title in a frame `width` characters wide, as
/// printed: a yellow rule (the colour code written before every `=`), the
/// title centred between `||` and `||`, a plain rule, and the credit line in
/// cyan.
pub open spec fn banner_text(title: Seq<char>, width: nat) -> Seq<char> {
    rule_yellow(width) + seq!['\n'] + seq!['|', '|'] + centred(
        title,
        (width - 4) as nat,
    ) + seq!['|', '|', '\n'] + repeat_char('=', width) + "\n\n\x1b[36mDeveloped by Gafoor\x1b[0m\n\n"@
        + seq!['\n']
}

/// `count` copies of the yellow colour code followed by `=`.
pub open spec fn rule_yellow(count: nat) -> Seq<char>
    decreases count,
{
    if count == 0 {
        Seq::empty()
    } else {
        rule_yellow((count - 1) as nat) + "\x1b[33m="@
    }
}

/// The start-up banner for a title in a frame `width` (at least 4) wide.
pub fn banner(title: &str, width: usize) -> (r: String)
    requires
        width >= 4,
    ensures
        r@ == banner_text(title@, width as nat),
{
    let mut r = String::new();
    let mut k: usize = 0;
    while k < width
        invariant
            k <= width,
            r@ == rule_yellow(k as nat),
        decreases width - k,
    {
        r.append("\x1b[33m=");
        k = k + 1;
    }
    push_char(&mut r, '\n');
    r.append("||");
    let middle = centre(title, width - 4);
    r.append(middle.as_str());
    r.append("||\n");
    push_repeated(&mut r, '=', width);
    r.append("\n\n\x1b[36mDeveloped by Gafoor\x1b[0m\n\n");
    push_char(&mut r, '\n');
    proof {
        reveal_strlit("||");
        reveal_strlit("||\n");
        assert("||"@ =~= seq!['|', '|']);
        assert("||\n"@ =~= seq!['|', '|', '\n']);
    }
    r
}

/// The title line of the banner is as wide as the frame whenever the title fits.
pub proof fn lemma_banner_title_width(title: Seq<char>, width: nat)
    requires
        width >= 4,
        title.len() <= width - 4,
    ensures
        (seq!['|', '|'] + centred(title, (width - 4) as nat) + seq!['|', '|']).len() == width,
{
}

} // verus!
