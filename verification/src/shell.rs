use vstd::prelude::*;

use crate::text::{
    ascii_lower, char_ascii_lower, char_is_ascii_alnum, chars_of, is_ascii_alnum, owned, push_char,
    push_str, replace_char, replace_char_with,
};

verus! {

/// `value` quoted for a POSIX shell: wrapped in single quotes, each inner single quote written as
/// `'"'"'`.
pub open spec fn single_quoted(value: Seq<char>) -> Seq<char> {
    seq!['\''] + replace_char(value, '\'', "'\"'\"'"@) + seq!['\'']
}

pub fn shell_single_quote(value: &str) -> (r: String)
    ensures
        r@ == single_quoted(value@),
{
    let mut r = String::new();
    push_char(&mut r, '\'');
    let inner = replace_char_with(value, '\'', "'\"'\"'");
    push_str(&mut r, inner.as_str());
    push_char(&mut r, '\'');
    assert(r@ =~= single_quoted(value@));
    r
}

/// A value for a single-quoted `uci` option: inner single quotes closed and reopened.
pub open spec fn uci_quoted(value: Seq<char>) -> Seq<char> {
    replace_char(value, '\'', "'\"'\"'"@)
}

pub fn uci_quote(value: &str) -> (r: String)
    ensures
        r@ == uci_quoted(value@),
{
    replace_char_with(value, '\'', "'\"'\"'")
}

/// A string for an `nft` rule inside a shell script: `\"`, the value with `\` and `"` escaped,
/// `\"`.
pub open spec fn nft_quoted(value: Seq<char>) -> Seq<char> {
    seq!['\\', '"'] + replace_char(replace_char(value, '\\', "\\\\"@), '"', "\\\""@) + seq![
        '\\',
        '"',
    ]
}

pub fn nft_string(value: &str) -> (r: String)
    ensures
        r@ == nft_quoted(value@),
{
    let escaped_backslashes = replace_char_with(value, '\\', "\\\\");
    let escaped = replace_char_with(escaped_backslashes.as_str(), '"', "\\\"");
    let mut r = String::new();
    push_char(&mut r, '\\');
    push_char(&mut r, '"');
    push_str(&mut r, escaped.as_str());
    push_char(&mut r, '\\');
    push_char(&mut r, '"');
    assert(r@ =~= nft_quoted(value@));
    r
}

/// A character as it may stand in a `uci` section name: ASCII letters and digits lowercased,
/// anything else `_`.
pub open spec fn section_char(c: char) -> char {
    if is_ascii_alnum(c) {
        ascii_lower(c)
    } else {
        '_'
    }
}

/// The `uci` section name for a rule of a device policy.
pub open spec fn section_name(prefix: Seq<char>, device_policy_id: Seq<char>) -> Seq<char> {
    "easytier_agent_"@ + prefix + seq!['_'] + device_policy_id.map_values(
        |c: char| section_char(c),
    )
}

pub fn uci_section_name(prefix: &str, device_policy_id: &str) -> (r: String)
    ensures
        r@ == section_name(prefix@, device_policy_id@),
{
    let mut r = owned("easytier_agent_");
    push_str(&mut r, prefix);
    push_char(&mut r, '_');
    let ghost head = r@;
    let chars = chars_of(device_policy_id);
    let mut i: usize = 0;
    while i < chars.len()
        invariant
            0 <= i <= chars.len(),
            chars@ == device_policy_id@,
            r@ == head + device_policy_id@.take(i as int).map_values(|c: char| section_char(c)),
        decreases chars.len() - i,
    {
        let c = chars[i];
        let out = if char_is_ascii_alnum(c) {
            char_ascii_lower(c)
        } else {
            '_'
        };
        push_char(&mut r, out);
        assert(device_policy_id@.take(i + 1).map_values(|c: char| section_char(c))
            =~= device_policy_id@.take(i as int).map_values(|c: char| section_char(c)).push(
            section_char(c),
        ));
        i += 1;
    }
    assert(device_policy_id@.take(device_policy_id@.len() as int) == device_policy_id@);
    r
}

} // verus!
