//! The probe engine: one probe of one URL, phase by phase.

use vstd::prelude::*;
use vstd::string::*;

pub mod certificate;
pub mod endpoint;
pub mod probe;
pub mod result;

verus! {

/// The views of a sequence of texts.
pub open spec fn causes_view(causes: Seq<String>) -> Seq<Seq<char>> {
    causes.map_values(|cause: String| cause@)
}

/// The causes of an error, each on a paragraph of its own.
pub open spec fn caused_by(causes: Seq<Seq<char>>) -> Seq<char>
    decreases causes.len(),
{
    if causes.len() == 0 {
        Seq::empty()
    } else {
        "\n\nCaused by: "@ + causes[0] + caused_by(causes.drop_first())
    }
}

/// The text that reports an error with the chain of its causes: the message
/// of the error, then every cause from the nearest on, each introduced by
/// `Caused by: ` after an empty line.
pub fn report(message: &str, causes: &Vec<String>) -> (text: String)
    ensures
        text@ == message@ + caused_by(causes_view(causes@)),
{
    let mut text = String::from_str(message);
    let ghost all = causes_view(causes@);
    let mut i: usize = 0;
    proof {
        assert(all.skip(0) =~= all);
    }
    while i < causes.len()
        invariant
            i <= causes.len(),
            all == causes_view(causes@),
            text@ + caused_by(all.skip(i as int)) == message@ + caused_by(all),
        decreases causes.len() - i,
    {
        let ghost before = text@;
        text.append("\n\nCaused by: ");
        text.append(causes[i].as_str());
        proof {
            assert(all.skip(i as int).drop_first() =~= all.skip(i + 1));
            assert(all.skip(i as int)[0] == causes@[i as int]@);
            assert(text@ + caused_by(all.skip(i + 1)) =~= before + caused_by(all.skip(i as int)));
        }
        i += 1;
    }
    proof {
        assert(all.skip(i as int) =~= Seq::empty());
        assert(text@ + Seq::<char>::empty() =~= text@);
    }
    text
}

/// Whether a text holds printable ASCII only: characters from the space to
/// the tilde. Such a text takes one column for each of its characters.
pub open spec fn printable_ascii(text: Seq<char>) -> bool {
    forall|i: int| 0 <= i < text.len() ==> 0x20 <= #[trigger] text[i] as u32 <= 0x7E
}

/// Whether `text` holds printable ASCII only.
pub fn is_printable_ascii(text: &str) -> (printable: bool)
    ensures
        printable == printable_ascii(text@),
{
    let n = text.unicode_len();
    let mut i: usize = 0;
    while i < n
        invariant
            i <= n,
            n == text@.len(),
            forall|j: int| 0 <= j < i ==> 0x20 <= #[trigger] text@[j] as u32 <= 0x7E,
        decreases n - i,
    {
        let code = text.get_char(i) as u32;
        if code < 0x20 || code > 0x7E {
            return false;
        }
        i += 1;
    }
    true
}

/// What `unicode_truncate` keeps of a text that may take at most `max_width`
/// columns on a terminal: the longest beginning of the text, whole graphemes
/// only, that fits.
pub uninterp spec fn unicode_truncated(text: Seq<char>, max_width: nat) -> Seq<char>;

/// Cuts `input` down to `width` columns with
/// `unicode_truncate::UnicodeTruncateStr::unicode_truncate`. The contract
/// names what is kept and claims no more: the same text and width give the
/// same result. Only printable ASCII is handed on: on other texts the outside
/// function may fail where the columns of a text are not those of its parts
/// added up.
#[verifier::external_body]
fn truncate_to_width(input: &str, width: usize) -> (kept: String)
    requires
        printable_ascii(input@),
    ensures
        kept@ == unicode_truncated(input@, width as nat),
{
    unicode_truncate::UnicodeTruncateStr::unicode_truncate(input, width).0.to_string()
}

/// A text followed by as many spaces as it lacks characters to `width`.
pub open spec fn padded(text: Seq<char>, width: nat) -> Seq<char> {
    if text.len() >= width {
        text
    } else {
        text + Seq::new((width - text.len()) as nat, |i: int| ' ')
    }
}

/// The first `width` characters of a text, or all of it where it has fewer.
pub open spec fn cut(text: Seq<char>, width: nat) -> Seq<char> {
    if text.len() > width {
        text.take(width as int)
    } else {
        text
    }
}

/// `text` followed by as many spaces as it lacks characters to `width`.
pub fn pad_to_width(text: String, width: usize) -> (result: String)
    ensures
        result@ == padded(text@, width as nat),
{
    let mut result = text;
    let mut count = result.as_str().unicode_len();
    proof {
        reveal_strlit(" ");
        assert(result@ + Seq::new(0, |i: int| ' ') =~= result@);
    }
    while count < width
        invariant
            count == result@.len(),
            text@.len() <= count,
            count <= width || count == text@.len(),
            result@ == text@ + Seq::new((count - text@.len()) as nat, |i: int| ' '),
        decreases width - count,
    {
        let ghost before = result@;
        result.append(" ");
        proof {
            reveal_strlit(" ");
            assert(" "@ =~= seq![' ']);
            assert(result@ =~= text@ + Seq::new((count + 1 - text@.len()) as nat, |i: int| ' '));
        }
        count += 1;
    }
    proof {
        assert(text@ + Seq::new(0, |i: int| ' ') =~= text@);
    }
    result
}

/// `input`, printable ASCII, at a fixed width for a column of a log: cut
/// down to `width` columns, then filled up with spaces to `width`
/// characters.
pub fn to_fixed_width(input: &str, width: usize) -> (text: String)
    requires
        printable_ascii(input@),
    ensures
        text@ == padded(unicode_truncated(input@, width as nat), width as nat),
{
    pad_to_width(truncate_to_width(input, width), width)
}

/// What `fixed_width_column` gives for a text: printable ASCII is cut down to
/// `width` columns, any other text to `width` characters; either is then
/// filled up with spaces to `width` characters.
pub open spec fn column_text(input: Seq<char>, width: nat) -> Seq<char> {
    if printable_ascii(input) {
        padded(unicode_truncated(input, width), width)
    } else {
        padded(cut(input, width), width)
    }
}

/// Any text at a fixed width for a column of a log. Printable ASCII goes
/// through `to_fixed_width`; any other text is cut down to its first `width`
/// characters and filled up with spaces to `width` characters.
pub fn fixed_width_column(input: &str, width: usize) -> (text: String)
    ensures
        text@ == column_text(input@, width as nat),
{
    if is_printable_ascii(input) {
        to_fixed_width(input, width)
    } else {
        let n = input.unicode_len();
        let kept = if n > width {
            input.substring_char(0, width)
        } else {
            input
        };
        pad_to_width(String::from_str(kept), width)
    }
}

} // verus!
