use vstd::prelude::*;

verus! {

/// An ASCII letter, digit or underscore.
pub open spec fn is_name_char(c: char) -> bool {
    ('a' as int <= c as int <= 'z' as int) || ('A' as int <= c as int <= 'Z' as int) || is_digit(c)
        || c == '_'
}

pub open spec fn is_digit(c: char) -> bool {
    '0' as int <= c as int <= '9' as int
}

/// A D-Bus interface name as zbus accepts it: 3 to 255 characters, each an
/// ASCII letter, digit, underscore or dot; at least one dot; and neither a
/// dot nor a digit at the start or right after a dot (so no element is
/// empty or starts with a digit; a trailing dot passes).
pub open spec fn is_interface_name(s: Seq<char>) -> bool {
    &&& 3 <= s.len() <= 255
    &&& forall|i: int| 0 <= i < s.len() ==> is_name_char(#[trigger] s[i]) || s[i] == '.'
    &&& exists|i: int| 0 <= i < s.len() && #[trigger] s[i] == '.'
    &&& forall|i: int|
        0 <= i < s.len() && (#[trigger] s[i] == '.' || is_digit(s[i])) ==> i > 0 && s[i - 1] != '.'
}

/// Relies on `zbus::names::InterfaceName::try_from(&str)`, whose check
/// (`ensure_correct_interface_name` in zbus_names) accepts exactly the
/// names above. It counts bytes, but a name it accepts is ASCII.
#[verifier::external_body]
pub(crate) fn interface_name_ok(s: &str) -> (r: bool)
    ensures
        r == is_interface_name(s@),
{
    zbus::names::InterfaceName::try_from(s).is_ok()
}

} // verus!
