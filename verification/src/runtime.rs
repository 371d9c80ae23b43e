use crate::error::{Error, Result};
use crate::text::{chars_of, same_chars};
use vstd::prelude::*;
use vstd::string::StringExecFns;

verus! {

/// Whether `c` has the Unicode `White_Space` property, the set that
/// `char::is_whitespace` and `str::trim` use.
pub open spec fn is_white_space(c: char) -> bool {
    ||| '\u{9}' <= c <= '\u{d}'
    ||| c == ' '
    ||| c == '\u{85}'
    ||| c == '\u{a0}'
    ||| c == '\u{1680}'
    ||| '\u{2000}' <= c <= '\u{200a}'
    ||| c == '\u{2028}'
    ||| c == '\u{2029}'
    ||| c == '\u{202f}'
    ||| c == '\u{205f}'
    ||| c == '\u{3000}'
}

fn white_space(c: char) -> (ws: bool)
    ensures
        ws == is_white_space(c),
{
    ('\u{9}' <= c && c <= '\u{d}') || c == ' ' || c == '\u{85}' || c == '\u{a0}' || c
        == '\u{1680}' || ('\u{2000}' <= c && c <= '\u{200a}') || c == '\u{2028}' || c
        == '\u{2029}' || c == '\u{202f}' || c == '\u{205f}' || c == '\u{3000}'
}

/// `text` without leading and trailing white space.
pub open spec fn trimmed(text: Seq<char>) -> Seq<char>
    decreases text.len(),
{
    if text.len() == 0 {
        text
    } else if is_white_space(text[0]) {
        trimmed(text.skip(1))
    } else if is_white_space(text.last()) {
        trimmed(text.drop_last())
    } else {
        text
    }
}

/// `c` with ASCII capitals turned into small letters.
pub open spec fn ascii_lower(c: char) -> char {
    if 'A' <= c <= 'Z' {
        ((c as u32) + 32) as char
    } else {
        c
    }
}

/// The device setting after trimming and ASCII lower-casing.
pub open spec fn normalized_setting(text: Seq<char>) -> Seq<char> {
    trimmed(text).map_values(|c: char| ascii_lower(c))
}

/// The `Debug` rendering of a string: quoted, with special characters
/// escaped.
pub uninterp spec fn debug_rendering(text: Seq<char>) -> Seq<char>;

/// Renders `text` with `format!("{:?}", text)`, the `Debug` of `str`.
#[verifier::external_body]
fn debug_text(text: &str) -> (rendered: String)
    ensures
        rendered@ == debug_rendering(text@),
{
    format!("{:?}", text)
}

/// Collects characters into a `String` with `Iterator::collect`.
#[verifier::external_body]
fn string_of_chars(chars: &Vec<char>) -> (text: String)
    ensures
        text@ == chars@,
{
    chars.iter().collect()
}

/// Whether a normalized device setting selects the default device.
pub open spec fn accepted_setting(setting: Seq<char>) -> bool {
    setting == ""@ || setting == "auto"@ || setting == "cpu"@ || setting == "flex"@
}

/// The device setting in force: the first variable that is set, `"auto"`
/// when neither is.
pub fn device_setting(primary: Option<String>, secondary: Option<String>) -> (setting: String)
    ensures
        match (primary, secondary) {
            (Some(p), _) => setting@ == p@,
            (None, Some(s)) => setting@ == s@,
            (None, None) => setting@ == "auto"@,
        },
{
    match primary {
        Some(p) => p,
        None => match secondary {
            Some(s) => s,
            None => String::from_str("auto"),
        },
    }
}

/// Decides a device setting: empty, `auto`, `cpu` and `flex` (ignoring
/// surrounding white space and ASCII case) select the default device;
/// anything else is a configuration error naming the normalized setting.
pub fn check_device_setting(requested: &str) -> (result: Result<()>)
    ensures
        accepted_setting(normalized_setting(requested@)) ==> result is Ok,
        !accepted_setting(normalized_setting(requested@)) ==> (result matches Err(e) && e is Config
            && e.message() == "unsupported SYNCOPATE_DEVICE="@ + debug_rendering(
            normalized_setting(requested@),
        ) + "; use auto"@),
{
    let chars = chars_of(requested);
    let mut start: usize = 0;
    let mut end: usize = chars.len();
    let ghost all = chars@;
    assert(all.subrange(0, all.len() as int) =~= all);
    while start < end && white_space(chars[start])
        invariant
            all == chars@,
            start <= end <= chars.len(),
            end == chars.len(),
            trimmed(all) == trimmed(all.subrange(start as int, end as int)),
        decreases end - start,
    {
        proof {
            let part = all.subrange(start as int, end as int);
            assert(part.skip(1) =~= all.subrange(start + 1, end as int));
        }
        start = start + 1;
    }
    while start < end && white_space(chars[end - 1])
        invariant
            all == chars@,
            start <= end <= chars.len(),
            start < end ==> !is_white_space(all[start as int]),
            trimmed(all) == trimmed(all.subrange(start as int, end as int)),
        decreases end - start,
    {
        proof {
            let part = all.subrange(start as int, end as int);
            assert(part.drop_last() =~= all.subrange(start as int, end - 1));
        }
        end = end - 1;
    }
    let mut lowered: Vec<char> = Vec::new();
    let mut i: usize = start;
    while i < end
        invariant
            all == chars@,
            start <= i <= end <= chars.len(),
            lowered@ == all.subrange(start as int, i as int).map_values(|c: char| ascii_lower(c)),
        decreases end - i,
    {
        let c = chars[i];
        let lower = if 'A' <= c && c <= 'Z' {
            ((c as u32) + 32) as u8 as char
        } else {
            c
        };
        assert(lower == ascii_lower(c)) by {
            if 'A' <= c && c <= 'Z' {
                assert(((c as u32) + 32) as u8 as char == ((c as u32) + 32) as char);
            }
        }
        lowered.push(lower);
        i = i + 1;
        assert(lowered@ =~= all.subrange(start as int, i as int).map_values(
            |c: char| ascii_lower(c),
        ));
    }
    proof {
        let part = all.subrange(start as int, end as int);
        if part.len() > 0 {
            assert(part[0] == all[start as int]);
            assert(part.last() == all[end - 1]);
        }
        assert(trimmed(part) == part);
    }
    if same_chars(&lowered, "") || same_chars(&lowered, "auto") || same_chars(&lowered, "cpu")
        || same_chars(&lowered, "flex") {
        return Ok(());
    }
    let setting = string_of_chars(&lowered);
    let rendered = debug_text(setting.as_str());
    Err(
        Error::Config(
            String::from_str("unsupported SYNCOPATE_DEVICE=").concat(rendered.as_str()).concat(
                "; use auto",
            ),
        ),
    )
}

} // verus!
