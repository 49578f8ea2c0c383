//! Validation of tool names against the MCP naming rules.
use vstd::prelude::*;
use vstd::string::*;
use crate::text::{chars_of, decimal, is_ascii_alphanumeric, push_char, push_decimal, push_str};

verus! {

/// Characters allowed in a tool name: A-Z, a-z, 0-9, `_`, `-`, `.`.
pub open spec fn tool_name_char_ok(c: char) -> bool {
    is_ascii_alphanumeric(c) || c == '_' || c == '-' || c == '.'
}

/// Index of the first character of `s` not allowed in a tool name, or `s.len()`.
pub open spec fn first_bad_char(s: Seq<char>) -> int
    decreases s.len(),
{
    if s.len() == 0 {
        0
    } else if !tool_name_char_ok(s[0]) {
        0
    } else {
        1 + first_bad_char(s.drop_first())
    }
}

pub proof fn lemma_first_bad_char(s: Seq<char>)
    ensures
        0 <= first_bad_char(s) <= s.len(),
        forall|j: int| 0 <= j < first_bad_char(s) ==> tool_name_char_ok(#[trigger] s[j]),
        first_bad_char(s) < s.len() ==> !tool_name_char_ok(s[first_bad_char(s)]),
    decreases s.len(),
{
    if s.len() > 0 && tool_name_char_ok(s[0]) {
        lemma_first_bad_char(s.drop_first());
        assert forall|j: int| 0 <= j < first_bad_char(s) implies tool_name_char_ok(#[trigger] s[j]) by {
            if j > 0 {
                assert(s[j] == s.drop_first()[j - 1]);
            }
        }
    }
}

/// The error text that `validate_tool_name` reports for `name`, or `None`
/// when the name is valid.  `byte_len` is the UTF-8 length of `name`.
pub open spec fn tool_name_error(name: Seq<char>, byte_len: nat) -> Option<Seq<char>> {
    if name.len() == 0 {
        Some("tool name must not be empty"@)
    } else if byte_len > 128 {
        Some("tool name exceeds 128 characters (length: "@ + decimal(byte_len) + ")"@)
    } else if first_bad_char(name) < name.len() {
        Some("tool name contains invalid character '"@ + seq![name[first_bad_char(name)]]
            + "'. Allowed: A-Z, a-z, 0-9, underscore, hyphen, dot"@)
    } else {
        None
    }
}

/// A tool name is accepted exactly when it has 1 to 128 bytes and every
/// character is an ASCII letter (upper or lower case), an ASCII digit, an
/// underscore, a hyphen or a dot.
pub proof fn lemma_tool_name_accepted(name: Seq<char>, byte_len: nat)
    ensures
        tool_name_error(name, byte_len) is None <==> {
            &&& name.len() > 0
            &&& byte_len <= 128
            &&& forall|j: int|
                0 <= j < name.len() ==> {
                    let c = #[trigger] name[j];
                    ||| 'A' <= c && c <= 'Z'
                    ||| 'a' <= c && c <= 'z'
                    ||| '0' <= c && c <= '9'
                    ||| c == '_'
                    ||| c == '-'
                    ||| c == '.'
                }
        },
{
    lemma_first_bad_char(name);
    if name.len() > 0 && first_bad_char(name) < name.len() {
        let b = first_bad_char(name);
        assert(!tool_name_char_ok(name[b]));
    }
}

/// Checks a tool name against the MCP rules: 1 to 128 bytes long, made of
/// A-Z, a-z, 0-9, underscore, hyphen and dot.
pub fn validate_tool_name(name: &str) -> (r: Result<(), String>)
    ensures
        r is Ok <==> {
            &&& name@.len() > 0
            &&& name.len() <= 128
            &&& forall|j: int|
                0 <= j < name@.len() ==> {
                    let c = #[trigger] name@[j];
                    ||| 'A' <= c && c <= 'Z'
                    ||| 'a' <= c && c <= 'z'
                    ||| '0' <= c && c <= '9'
                    ||| c == '_'
                    ||| c == '-'
                    ||| c == '.'
                }
        },
        match tool_name_error(name@, name.len() as nat) {
            None => r is Ok,
            Some(msg) => r matches Err(e) && e@ == msg,
        },
{
    proof {
        lemma_tool_name_accepted(name@, name.len() as nat);
    }
    if name.is_empty() {
        return Err(String::from_str("tool name must not be empty"));
    }
    let byte_len = name.len();
    if byte_len > 128 {
        let mut s = String::from_str("tool name exceeds 128 characters (length: ");
        push_decimal(&mut s, byte_len as u64);
        push_str(&mut s, ")");
        return Err(s);
    }
    let chars = chars_of(name);
    proof {
        lemma_first_bad_char(name@);
    }
    let mut i: usize = 0;
    while i < chars.len()
        invariant
            i <= chars.len(),
            chars@ == name@,
            name@.len() > 0,
            name.len() <= 128,
            forall|j: int| 0 <= j < i ==> tool_name_char_ok(#[trigger] chars@[j]),
            0 <= first_bad_char(name@) <= name@.len(),
            forall|j: int| 0 <= j < first_bad_char(name@) ==> tool_name_char_ok(#[trigger] name@[j]),
            first_bad_char(name@) < name@.len() ==> !tool_name_char_ok(name@[first_bad_char(name@)]),
        decreases chars.len() - i,
    {
        let ch = chars[i];
        let ok = ('0' <= ch && ch <= '9') || ('A' <= ch && ch <= 'Z') || ('a' <= ch && ch <= 'z')
            || ch == '_' || ch == '-' || ch == '.';
        if !ok {
            assert(first_bad_char(name@) == i);
            let mut s = String::from_str("tool name contains invalid character '");
            push_char(&mut s, ch);
            push_str(&mut s, "'. Allowed: A-Z, a-z, 0-9, underscore, hyphen, dot");
            assert(s@ =~= "tool name contains invalid character '"@ + seq![ch]
                + "'. Allowed: A-Z, a-z, 0-9, underscore, hyphen, dot"@);
            return Err(s);
        }
        i = i + 1;
    }
    assert(first_bad_char(name@) == name@.len());
    Ok(())
}

} // verus!
