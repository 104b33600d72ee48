//! The logic behind the preferences window: the number fields and the
//! script that adds or removes the login item.

use vstd::prelude::*;
use crate::text::chars_of;

verus! {

/// Whether `c` is an ASCII decimal digit.
pub open spec fn is_digit(c: char) -> bool {
    48 <= (c as u32) <= 57
}

/// The number that a sequence of decimal digits writes.
pub open spec fn digits_value(d: Seq<char>) -> nat
    decreases d.len(),
{
    if d.len() == 0 {
        0
    } else {
        digits_value(d.drop_last()) * 10 + ((d.last() as u32) - 48) as nat
    }
}

/// The digits of a count: the text without one leading `+`.
pub open spec fn count_digits(s: Seq<char>) -> Seq<char> {
    if s.len() > 0 && s[0] == '+' {
        s.drop_first()
    } else {
        s
    }
}

/// What `str::parse::<usize>` reads from a text: an optional `+`, then at
/// least one ASCII digit and nothing else, for a value that fits in `usize`.
pub open spec fn parsed_count(s: Seq<char>) -> Option<nat> {
    let d = count_digits(s);
    if d.len() > 0 && (forall|i: int| 0 <= i < d.len() ==> is_digit(#[trigger] d[i]))
        && digits_value(d) <= usize::MAX {
        Some(digits_value(d))
    } else {
        None
    }
}

proof fn lemma_digits_value_grows(d: Seq<char>, i: int)
    requires
        0 <= i <= d.len(),
        forall|k: int| 0 <= k < d.len() ==> is_digit(#[trigger] d[k]),
    ensures
        digits_value(d.take(i)) <= digits_value(d),
    decreases d.len() - i,
{
    if i < d.len() {
        lemma_digits_value_grows(d, i + 1);
        assert(d.take(i + 1).drop_last() =~= d.take(i));
    } else {
        assert(d.take(i) =~= d);
    }
}

/// Reads a count as `str::parse::<usize>` does.
pub fn parse_count(text: &str) -> (r: Option<usize>)
    ensures
        match r {
            Some(v) => parsed_count(text@) == Some(v as nat),
            None => parsed_count(text@) is None,
        },
{
    let cs = chars_of(text);
    let n = cs.len();
    let start: usize = if n > 0 && cs[0] == '+' { 1 } else { 0 };
    let ghost d = count_digits(text@);
    assert(d =~= cs@.skip(start as int));
    if start == n {
        return None;
    }
    let mut v: usize = 0;
    let mut i: usize = start;
    while i < n
        invariant
            cs@ == text@,
            n == cs@.len(),
            start <= i <= n,
            d == cs@.skip(start as int),
            d == count_digits(text@),
            forall|k: int| 0 <= k < i - start ==> is_digit(#[trigger] d[k]),
            v == digits_value(d.take(i - start)),
        decreases n - i,
    {
        let c = cs[i];
        let code = c as u32;
        if code < 48 || code > 57 {
            assert(!is_digit(d[i - start]));
            return None;
        }
        let digit = (code - 48) as usize;
        assert(d.take(i - start + 1).drop_last() =~= d.take(i - start));
        let next = match v.checked_mul(10) {
            Some(m) => m.checked_add(digit),
            None => None,
        };
        match next {
            Some(w) => {
                v = w;
            },
            None => {
                proof {
                    let j = i - start + 1;
                    if forall|k: int| 0 <= k < d.len() ==> is_digit(#[trigger] d[k]) {
                        lemma_digits_value_grows(d, j);
                    }
                }
                return None;
            },
        }
        i = i + 1;
    }
    assert(d.take(n - start) =~= d);
    Some(v)
}

/// The value a number field gives its setting: what it reads, or the
/// setting's current value while the field does not hold a count.
pub fn count_from_field(text: &str, current: usize) -> (r: usize)
    ensures
        r == match parsed_count(text@) {
            Some(v) => v,
            None => current as nat,
        },
{
    match parse_count(text) {
        Some(v) => v,
        None => current,
    }
}

/// The AppleScript that adds the application at `app_path` to the login
/// items (`enable`) or removes it from them.
pub fn login_item_script(enable: bool, app_path: &str) -> (r: String)
    ensures
        enable ==> r@ == "tell application \"System Events\" to make login item at end with properties {path:\""@
            + app_path@ + "\", hidden:false}"@,
        !enable ==> r@ == "tell application \"System Events\" to delete login item \"OpenClip\""@,
{
    if enable {
        String::from_str(
            "tell application \"System Events\" to make login item at end with properties {path:\"",
        ).concat(app_path).concat("\", hidden:false}")
    } else {
        String::from_str("tell application \"System Events\" to delete login item \"OpenClip\"")
    }
}

} // verus!
