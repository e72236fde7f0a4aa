//! Every message, and every text that is put together from data, character by character.
use crate::psn;
use crate::psn::{DownloadError, PackageInfo, UpdateError, UpdateInfo};
use crate::psn::{PackageView, UpdateErrorView, UpdateView};
use bytesize::ByteSize;
use vstd::prelude::*;

verus! {

/// The character of a decimal digit.
pub open spec fn digit(d: nat) -> char {
    if d == 0 {
        '0'
    } else if d == 1 {
        '1'
    } else if d == 2 {
        '2'
    } else if d == 3 {
        '3'
    } else if d == 4 {
        '4'
    } else if d == 5 {
        '5'
    } else if d == 6 {
        '6'
    } else if d == 7 {
        '7'
    } else if d == 8 {
        '8'
    } else {
        '9'
    }
}

/// A number in decimal, without leading zeros.
pub open spec fn decimal(n: nat) -> Seq<char>
    decreases n,
{
    if n < 10 {
        seq![digit(n)]
    } else {
        decimal(n / 10).push(digit(n % 10))
    }
}

fn digit_text(d: usize) -> (text: &'static str)
    requires
        d < 10,
    ensures
        text@ == seq![digit(d as nat)],
{
    proof {
        reveal_strlit("0");
        reveal_strlit("1");
        reveal_strlit("2");
        reveal_strlit("3");
        reveal_strlit("4");
        reveal_strlit("5");
        reveal_strlit("6");
        reveal_strlit("7");
        reveal_strlit("8");
        reveal_strlit("9");
    }
    match d {
        0 => "0",
        1 => "1",
        2 => "2",
        3 => "3",
        4 => "4",
        5 => "5",
        6 => "6",
        7 => "7",
        8 => "8",
        _ => "9",
    }
}

/// Writes a number in decimal.
pub fn decimal_text(n: usize) -> (text: String)
    ensures
        text@ == decimal(n as nat),
    decreases n,
{
    if n < 10 {
        digit_text(n).to_owned()
    } else {
        let text = decimal_text(n / 10).concat(digit_text(n % 10));
        assert(text@ =~= decimal(n as nat));
        text
    }
}

/// The text that `bytesize::ByteSize` displays for a number of bytes.
pub uninterp spec fn size_text(bytes: u64) -> Seq<char>;

/// Calls `bytesize::ByteSize::b` and writes its result through `Display`. The text is the one
/// that `size_text` names; below a thousand bytes it is the number itself and the letter B.
/// From there on it is scaled to a unit in floating point, of which nothing more is said.
#[verifier::external_body]
pub(crate) fn format_size(bytes: u64) -> (text: String)
    ensures
        text@ == size_text(bytes),
        bytes < 1000 ==> text@ == decimal(bytes as nat) + " B"@,
{
    ByteSize::b(bytes).to_string()
}

/// The key under which the interface remembers whether a title is folded out.
pub open spec fn header_key(title_id: Seq<char>) -> Seq<char> {
    "pkg_header_"@ + title_id
}

pub fn header_key_text(title_id: &String) -> (text: String)
    ensures
        text@ == header_key(title_id@),
{
    "pkg_header_".to_owned().concat(title_id.as_str())
}

/// The line above the packages of a title, `size` being the size of all of them. A title
/// without a name has only its serial there.
pub open spec fn header_line(update: UpdateView, size: Seq<char>) -> Seq<char> {
    if update.titles.len() > 0 {
        update.title_id + " - "@ + update.titles[0] + " ("@ + decimal(update.packages.len())
            + " update(s) - "@ + size + " total)"@
    } else {
        update.title_id
    }
}

/// Writes the line above the packages of a title, given the text for their size.
pub fn header_line_text(update: &UpdateInfo, size: &String) -> (text: String)
    ensures
        text@ == header_line(update@, size@),
{
    if update.titles.len() > 0 {
        let count = decimal_text(update.packages.len());
        update.title_id.clone().concat(" - ").concat(update.titles[0].as_str()).concat(" (").concat(
            count.as_str(),
        ).concat(" update(s) - ").concat(size.as_str()).concat(" total)")
    } else {
        update.title_id.clone()
    }
}

/// Writes the line above the packages of a title.
pub fn header_text(update: &UpdateInfo) -> (text: String)
    requires
        psn::total_size(update@.packages) <= u64::MAX,
    ensures
        text@ == header_line(update@, size_text(psn::total_size(update@.packages) as u64)),
        psn::total_size(update@.packages) < 1000 ==> text@ == header_line(
            update@,
            decimal(psn::total_size(update@.packages)) + " B"@,
        ),
{
    let size = format_size(update.total_updates_size());
    header_line_text(update, &size)
}

/// The three lines that describe a package.
pub struct PackageLines {
    pub version: String,
    pub size: String,
    pub sha1sum: String,
}

/// Whether `lines` describe a package whose size reads `size`.
pub open spec fn describes(lines: PackageLines, pkg: PackageView, size: Seq<char>) -> bool {
    &&& lines.version@ == "Package Version: "@ + pkg.version
    &&& lines.size@ == "Size: "@ + size
    &&& lines.sha1sum@ == "SHA-1 hashsum: "@ + pkg.sha1sum
}

/// Writes the three lines of a package, given the text for its size.
pub fn package_lines_with_size(pkg: &PackageInfo, size: &String) -> (lines: PackageLines)
    ensures
        describes(lines, pkg@, size@),
{
    PackageLines {
        version: "Package Version: ".to_owned().concat(pkg.version.as_str()),
        size: "Size: ".to_owned().concat(size.as_str()),
        sha1sum: "SHA-1 hashsum: ".to_owned().concat(pkg.sha1sum.as_str()),
    }
}

/// Writes the three lines of a package.
pub fn package_lines(pkg: &PackageInfo) -> (lines: PackageLines)
    ensures
        describes(lines, pkg@, size_text(pkg.size)),
        pkg.size < 1000 ==> describes(lines, pkg@, decimal(pkg.size as nat) + " B"@),
{
    let size = format_size(pkg.size);
    package_lines_with_size(pkg, &size)
}

/// What the user is told of a lookup that failed.
pub open spec fn lookup_failure(error: UpdateErrorView) -> Seq<char> {
    match error {
        UpdateErrorView::InvalidSerial =>
            "The provided serial didn't give any results, double-check your input."@,
        UpdateErrorView::NoUpdatesAvailable =>
            "The provided serial doesn't have any available updates."@,
        UpdateErrorView::Reqwest(e) => "There was an error completing the request ("@ + e + ")."@,
        UpdateErrorView::XmlParsing(e) =>
            "Error parsing response from Sony, try again later ("@ + e + ")."@,
    }
}

pub fn lookup_failure_text(error: &UpdateError) -> (text: String)
    ensures
        text@ == lookup_failure(error@),
{
    match error {
        UpdateError::InvalidSerial =>
            "The provided serial didn't give any results, double-check your input.".to_owned(),
        UpdateError::NoUpdatesAvailable =>
            "The provided serial doesn't have any available updates.".to_owned(),
        UpdateError::Reqwest(e) => "There was an error completing the request (".to_owned().concat(
            e.as_str(),
        ).concat(")."),
        UpdateError::XmlParsing(e) =>
            "Error parsing response from Sony, try again later (".to_owned().concat(
            e.as_str(),
        ).concat(")."),
    }
}

/// What the user is told of a download that ended.
pub open spec fn outcome_line(
    id: Seq<char>,
    version: Seq<char>,
    outcome: Result<(), DownloadError>,
) -> Seq<char> {
    match outcome {
        Ok(_) => id + " v"@ + version + " downloaded successfully!"@,
        Err(DownloadError::HashMismatch) => "Failed to download "@ + id + " v"@ + version
            + ": Hash mismatch."@,
        Err(_) => "Failed to download "@ + id + " v"@ + version
            + ". Check the log for details."@,
    }
}

pub fn outcome_text(id: &String, version: &String, outcome: Result<(), DownloadError>) -> (text:
    String)
    ensures
        text@ == outcome_line(id@, version@, outcome),
{
    match outcome {
        Ok(_) => id.clone().concat(" v").concat(version.as_str()).concat(
            " downloaded successfully!",
        ),
        Err(error) => {
            let text = "Failed to download ".to_owned().concat(id.as_str()).concat(" v").concat(
                version.as_str(),
            );
            match error {
                DownloadError::HashMismatch => text.concat(": Hash mismatch."),
                DownloadError::Tokio => text.concat(". Check the log for details."),
                DownloadError::Reqwest => text.concat(". Check the log for details."),
            }
        },
    }
}

} // verus!
