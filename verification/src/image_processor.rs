//! Images go to a folder for the year and month in which they were taken.

use vstd::prelude::*;
use vstd::string::*;
use crate::organizer::MoveRun;
use crate::paths::{is_absolute, join_path, join_paths};
use crate::processing_mode::ProcessingMode;
use crate::traits::{place_file, Processor, SourceFile, SourceFileView};
use crate::text::{
    lemma_numeral_digits, numeral, text_of, digit, first_word, first_word_of, lemma_split_nonempty, push_numeral,
    same_text, signed_numeral, split, split_text, texts, to_chars, two_digit_numeral,
};

verus! {

broadcast use vstd::string::group_string_axioms;

/// A calendar month of a year, as the local clock shows it.
#[derive(Debug, Clone, Copy, PartialEq, Eq, Structural)]
pub struct LocalDate {
    pub year: i32,
    pub month: u32,
}

/// The English name of the month with the number `month`, 1 to 12.
pub open spec fn month_name(month: nat) -> Seq<char> {
    if month == 1 {
        "January"@
    } else if month == 2 {
        "February"@
    } else if month == 3 {
        "March"@
    } else if month == 4 {
        "April"@
    } else if month == 5 {
        "May"@
    } else if month == 6 {
        "June"@
    } else if month == 7 {
        "July"@
    } else if month == 8 {
        "August"@
    } else if month == 9 {
        "September"@
    } else if month == 10 {
        "October"@
    } else if month == 11 {
        "November"@
    } else {
        "December"@
    }
}

/// The folder of a month: its number in two digits, a dash and its name;
/// `UnknownMonth` where the number is not that of a month.
pub open spec fn month_folder(month: nat) -> Seq<char> {
    if 1 <= month <= 12 {
        two_digit_numeral(month) + " - "@ + month_name(month)
    } else {
        "UnknownMonth"@
    }
}

/// The folder of the month of a date: the year, a separator and the folder
/// of the month.
pub open spec fn dated_folder(date: LocalDate) -> Seq<char> {
    signed_numeral(date.year as int) + "/"@ + month_folder(date.month as nat)
}

/// The folder of the month written as `text` in a capture time: `01` to
/// `12` give the month's folder, anything else gives `UnknownMonth`.
pub open spec fn stamp_month_folder(text: Seq<char>) -> Seq<char> {
    if text == "01"@ {
        "01 - January"@
    } else if text == "02"@ {
        "02 - February"@
    } else if text == "03"@ {
        "03 - March"@
    } else if text == "04"@ {
        "04 - April"@
    } else if text == "05"@ {
        "05 - May"@
    } else if text == "06"@ {
        "06 - June"@
    } else if text == "07"@ {
        "07 - July"@
    } else if text == "08"@ {
        "08 - August"@
    } else if text == "09"@ {
        "09 - September"@
    } else if text == "10"@ {
        "10 - October"@
    } else if text == "11"@ {
        "11 - November"@
    } else if text == "12"@ {
        "12 - December"@
    } else {
        "UnknownMonth"@
    }
}

/// Whether `text` writes a year: one digit or more, and nothing else.
pub open spec fn is_year(text: Seq<char>) -> bool {
    text.len() > 0 && forall|i: int| 0 <= i < text.len() ==> '0' <= #[trigger] text[i] <= '9'
}

/// The folder of the year written as `text` in a capture time: the year
/// itself, and `UnknownYear` where `text` writes none.
pub open spec fn stamp_year_folder(text: Seq<char>) -> Seq<char> {
    if is_year(text) {
        text
    } else {
        "UnknownYear"@
    }
}

/// The folder for a capture time written as `YYYY:MM:DD HH:MM:SS`: the
/// first word is cut at its colons; the first piece writes the year, the
/// second names the month. A piece that is missing or writes no year or
/// month gives `UnknownYear` or `UnknownMonth`; so a blank text gives
/// `UnknownYear/UnknownMonth`.
pub open spec fn stamp_folder(stamp: Seq<char>) -> Seq<char> {
    let pieces = split(first_word(stamp), ':');
    let month = if pieces.len() > 1 {
        stamp_month_folder(pieces[1])
    } else {
        "UnknownMonth"@
    };
    stamp_year_folder(pieces[0]) + "/"@ + month
}

/// The folder of an image below `Images`: by its capture time where that
/// is known, else by the month in which the file was last modified, and
/// `Unknown` where neither is known.
pub open spec fn image_date_folder(capture: Option<Seq<char>>, modified: Option<LocalDate>) -> Seq<
    char,
> {
    match capture {
        Some(stamp) => stamp_folder(stamp),
        None => match modified {
            Some(date) => dated_folder(date),
            None => "Unknown"@,
        },
    }
}

/// The folder of an image below the destination.
pub open spec fn image_subfolder(capture: Option<Seq<char>>, modified: Option<LocalDate>) -> Seq<
    char,
> {
    join_path("Images"@, image_date_folder(capture, modified))
}

/// The folder of an image stands below `Images`, whatever its capture
/// time says.
pub proof fn lemma_image_folder_below_images(
    capture: Option<Seq<char>>,
    modified: Option<LocalDate>,
)
    ensures
        !is_absolute(image_date_folder(capture, modified)),
        image_subfolder(capture, modified) == "Images/"@ + image_date_folder(capture, modified),
        !is_absolute(image_subfolder(capture, modified)),
{
    reveal_strlit("Images");
    reveal_strlit("Images/");
    reveal_strlit("Unknown");
    reveal_strlit("UnknownYear");
    let dated = image_date_folder(capture, modified);
    assert(dated.len() > 0 ==> dated[0] != '/') by {
        match capture {
            Some(stamp) => {
                let pieces = split(first_word(stamp), ':');
                let year = stamp_year_folder(pieces[0]);
                assert(year.len() > 0 && year[0] != '/') by {
                    if is_year(pieces[0]) {
                        assert('0' <= pieces[0][0] <= '9');
                    } else {
                        assert("UnknownYear"@[0] == 'U');
                    }
                }
                assert(dated[0] == year[0]);
            },
            None => match modified {
                Some(date) => {
                    let year = signed_numeral(date.year as int);
                    if date.year < 0 {
                        assert(year[0] == '-');
                    } else {
                        lemma_numeral_digits(date.year as nat);
                        assert('0' <= numeral(date.year as nat)[0] <= '9');
                    }
                    assert(dated[0] == year[0]);
                },
                None => {
                    assert("Unknown"@[0] == 'U');
                },
            },
        }
    }
    assert("Images"@.last() == 's');
    assert("Images"@.push('/') =~= "Images/"@);
    assert("Images/"@[0] == 'I');
    assert(image_subfolder(capture, modified)[0] == 'I');
}

/// A month has one folder, whether its number was read from a capture
/// time or counted on the calendar.
pub proof fn lemma_month_folders_agree(month: nat)
    requires
        1 <= month <= 12,
    ensures
        stamp_month_folder(two_digit_numeral(month)) == month_folder(month),
{
    reveal_strlit(" - ");
    reveal_strlit("01");
    assert("01"@[0] == '0' && "01"@[1] == '1');
    reveal_strlit("02");
    assert("02"@[0] == '0' && "02"@[1] == '2');
    reveal_strlit("03");
    assert("03"@[0] == '0' && "03"@[1] == '3');
    reveal_strlit("04");
    assert("04"@[0] == '0' && "04"@[1] == '4');
    reveal_strlit("05");
    assert("05"@[0] == '0' && "05"@[1] == '5');
    reveal_strlit("06");
    assert("06"@[0] == '0' && "06"@[1] == '6');
    reveal_strlit("07");
    assert("07"@[0] == '0' && "07"@[1] == '7');
    reveal_strlit("08");
    assert("08"@[0] == '0' && "08"@[1] == '8');
    reveal_strlit("09");
    assert("09"@[0] == '0' && "09"@[1] == '9');
    reveal_strlit("10");
    assert("10"@[0] == '1' && "10"@[1] == '0');
    reveal_strlit("11");
    assert("11"@[0] == '1' && "11"@[1] == '1');
    reveal_strlit("12");
    assert("12"@[0] == '1' && "12"@[1] == '2');
    if month == 1 {
        reveal_strlit("January");
        reveal_strlit("01 - January");
        assert(two_digit_numeral(1) =~= "01"@) by {
            reveal_with_fuel(numeral, 2);
        }
        assert("01"@ + " - "@ + "January"@ =~= "01 - January"@);
    }
    if month == 2 {
        reveal_strlit("February");
        reveal_strlit("02 - February");
        assert(two_digit_numeral(2) =~= "02"@) by {
            reveal_with_fuel(numeral, 2);
        }
        assert("02"@ + " - "@ + "February"@ =~= "02 - February"@);
    }
    if month == 3 {
        reveal_strlit("March");
        reveal_strlit("03 - March");
        assert(two_digit_numeral(3) =~= "03"@) by {
            reveal_with_fuel(numeral, 2);
        }
        assert("03"@ + " - "@ + "March"@ =~= "03 - March"@);
    }
    if month == 4 {
        reveal_strlit("April");
        reveal_strlit("04 - April");
        assert(two_digit_numeral(4) =~= "04"@) by {
            reveal_with_fuel(numeral, 2);
        }
        assert("04"@ + " - "@ + "April"@ =~= "04 - April"@);
    }
    if month == 5 {
        reveal_strlit("May");
        reveal_strlit("05 - May");
        assert(two_digit_numeral(5) =~= "05"@) by {
            reveal_with_fuel(numeral, 2);
        }
        assert("05"@ + " - "@ + "May"@ =~= "05 - May"@);
    }
    if month == 6 {
        reveal_strlit("June");
        reveal_strlit("06 - June");
        assert(two_digit_numeral(6) =~= "06"@) by {
            reveal_with_fuel(numeral, 2);
        }
        assert("06"@ + " - "@ + "June"@ =~= "06 - June"@);
    }
    if month == 7 {
        reveal_strlit("July");
        reveal_strlit("07 - July");
        assert(two_digit_numeral(7) =~= "07"@) by {
            reveal_with_fuel(numeral, 2);
        }
        assert("07"@ + " - "@ + "July"@ =~= "07 - July"@);
    }
    if month == 8 {
        reveal_strlit("August");
        reveal_strlit("08 - August");
        assert(two_digit_numeral(8) =~= "08"@) by {
            reveal_with_fuel(numeral, 2);
        }
        assert("08"@ + " - "@ + "August"@ =~= "08 - August"@);
    }
    if month == 9 {
        reveal_strlit("September");
        reveal_strlit("09 - September");
        assert(two_digit_numeral(9) =~= "09"@) by {
            reveal_with_fuel(numeral, 2);
        }
        assert("09"@ + " - "@ + "September"@ =~= "09 - September"@);
    }
    if month == 10 {
        reveal_strlit("October");
        reveal_strlit("10 - October");
        assert(two_digit_numeral(10) =~= "10"@) by {
            reveal_with_fuel(numeral, 2);
        }
        assert("10"@ + " - "@ + "October"@ =~= "10 - October"@);
    }
    if month == 11 {
        reveal_strlit("November");
        reveal_strlit("11 - November");
        assert(two_digit_numeral(11) =~= "11"@) by {
            reveal_with_fuel(numeral, 2);
        }
        assert("11"@ + " - "@ + "November"@ =~= "11 - November"@);
    }
    if month == 12 {
        reveal_strlit("December");
        reveal_strlit("12 - December");
        assert(two_digit_numeral(12) =~= "12"@) by {
            reveal_with_fuel(numeral, 2);
        }
        assert("12"@ + " - "@ + "December"@ =~= "12 - December"@);
    }
}

/// `chrono::Month::try_from` takes the numbers 1 to 12 to the months of
/// the year and refuses every other number; `chrono::Month::name` gives the
/// English name of a month.
#[verifier::external_body]
fn month_name_of(month: u8) -> (name: Option<String>)
    ensures
        name is Some <==> 1 <= month <= 12,
        name matches Some(text) ==> text@ == month_name(month as nat),
{
    match chrono::Month::try_from(month) {
        Ok(found) => Some(found.name().to_string()),
        Err(_) => None,
    }
}

/// The folder of a month: its number in two digits, a dash and its name.
pub fn month_folder_of(month: u32) -> (folder: String)
    ensures
        folder@ == month_folder(month as nat),
{
    if month < 1 || month > 12 {
        return String::from_str("UnknownMonth");
    }
    let mut folder = String::new();
    if month < 10 {
        folder.push('0');
    }
    push_numeral(&mut folder, month as u64);
    assert(folder@ == two_digit_numeral(month as nat)) by {
        if month < 10 {
            assert(seq!['0'] + seq![digit(month as int)] == seq![
                '0',
                digit(month as int),
            ]);
        }
    }
    folder.append(" - ");
    match month_name_of(month as u8) {
        Some(name) => {
            folder.append(name.as_str());
        },
        None => {},
    }
    folder
}

/// The folder of the month of `date`.
pub fn dated_folder_of(date: LocalDate) -> (folder: String)
    ensures
        folder@ == dated_folder(date),
{
    let mut folder = String::new();
    if date.year < 0 {
        folder.push('-');
        push_numeral(&mut folder, (-(date.year as i64)) as u64);
        assert(folder@ == signed_numeral(date.year as int));
    } else {
        push_numeral(&mut folder, date.year as u64);
        assert(folder@ == signed_numeral(date.year as int));
    }
    folder.append("/");
    let month = month_folder_of(date.month);
    folder.append(month.as_str());
    folder
}

/// The folder that `text`, the month of a capture time, stands for.
pub fn stamp_month_folder_of(text: &str) -> (folder: String)
    ensures
        folder@ == stamp_month_folder(text@),
{
    if same_text(text, "01") {
        String::from_str("01 - January")
    } else if same_text(text, "02") {
        String::from_str("02 - February")
    } else if same_text(text, "03") {
        String::from_str("03 - March")
    } else if same_text(text, "04") {
        String::from_str("04 - April")
    } else if same_text(text, "05") {
        String::from_str("05 - May")
    } else if same_text(text, "06") {
        String::from_str("06 - June")
    } else if same_text(text, "07") {
        String::from_str("07 - July")
    } else if same_text(text, "08") {
        String::from_str("08 - August")
    } else if same_text(text, "09") {
        String::from_str("09 - September")
    } else if same_text(text, "10") {
        String::from_str("10 - October")
    } else if same_text(text, "11") {
        String::from_str("11 - November")
    } else if same_text(text, "12") {
        String::from_str("12 - December")
    } else {
        String::from_str("UnknownMonth")
    }
}

/// Whether `text` writes a year.
pub fn writes_year(text: &str) -> (r: bool)
    ensures
        r == is_year(text@),
{
    let chars = to_chars(text);
    if chars.len() == 0 {
        return false;
    }
    let mut i: usize = 0;
    while i < chars.len()
        invariant
            i <= chars.len(),
            chars@ == text@,
            forall|j: int| 0 <= j < i ==> '0' <= #[trigger] chars@[j] <= '9',
        decreases chars.len() - i,
    {
        let c: char = chars[i];
        if c < '0' || c > '9' {
            return false;
        }
        i += 1;
    }
    true
}

/// The folder of the year written as `text` in a capture time.
pub fn stamp_year_folder_of(text: &str) -> (folder: String)
    ensures
        folder@ == stamp_year_folder(text@),
{
    if writes_year(text) {
        String::from_str(text)
    } else {
        String::from_str("UnknownYear")
    }
}

/// The folder for a capture time written as `YYYY:MM:DD HH:MM:SS`.
pub fn format_date_to_path(date_str: &str) -> (folder: String)
    ensures
        folder@ == stamp_folder(date_str@),
{
    let word = first_word_of(date_str);
    let pieces = split_text(word.as_str(), ':');
    proof {
        lemma_split_nonempty(word@, ':');
        assert(texts(pieces@)[0] == pieces@[0]@);
    }
    let mut folder = stamp_year_folder_of(pieces[0].as_str());
    folder.append("/");
    if pieces.len() > 1 {
        assert(texts(pieces@)[1] == pieces@[1]@);
        let month = stamp_month_folder_of(pieces[1].as_str());
        folder.append(month.as_str());
    } else {
        folder.append("UnknownMonth");
    }
    folder
}

/// The folder of an image below the destination.
pub fn image_subfolder_of(capture: &Option<String>, modified: Option<LocalDate>) -> (folder: String)
    ensures
        folder@ == image_subfolder(text_of(*capture), modified),
{
    let dated = match capture {
        Some(stamp) => format_date_to_path(stamp.as_str()),
        None => match modified {
            Some(date) => dated_folder_of(date),
            None => String::from_str("Unknown"),
        },
    };
    join_paths("Images", dated.as_str())
}

/// Sends an image to the folder of the month in which it was taken.
#[derive(Debug, Clone, Copy, PartialEq, Eq, Structural)]
pub struct ImageProcessor;

impl Processor for ImageProcessor {
    open spec fn subfolder(&self, file: SourceFileView) -> Seq<char> {
        image_subfolder(file.capture_time, file.modified)
    }

    fn get_destination_subfolder(&self, file: &SourceFile) -> (folder: String) {
        image_subfolder_of(&file.capture_time, file.modified)
    }

    fn process(&self, file: &SourceFile, destination: &str, mode: &mut ProcessingMode) -> (run:
        Option<MoveRun>) {
        let folder = self.get_destination_subfolder(file);
        place_file(file.path.as_str(), destination, folder.as_str(), mode)
    }
}

} // verus!
