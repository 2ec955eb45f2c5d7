//! The value that a command-line argument carries: `--name=value`.
//!
//! The value is what follows the first `=` of the argument. An argument
//! without `=` carries no value; read as a switch, it is on.

use vstd::prelude::*;
use vstd::string::StringExecFns;
use crate::slicing::split_once_char;
use crate::text::{
    first_position, has_char, lemma_first_position, lemma_first_position_is, same_text,
};

verus! {

/// What follows the first `=` of `flag`; `None` where `flag` holds no `=`.
pub open spec fn flag_value(flag: Seq<char>) -> Option<Seq<char>> {
    let k = first_position(flag, '=') as int;
    if k < flag.len() {
        Some(flag.skip(k + 1))
    } else {
        None
    }
}

/// The value of `flag` as a text: empty where it carries none.
pub open spec fn flag_string(flag: Seq<char>) -> Seq<char> {
    match flag_value(flag) {
        Some(value) => value,
        None => Seq::empty(),
    }
}

/// The truth value that `text` spells: `true` or `false`, in lower case and
/// with nothing around it.
pub open spec fn bool_literal(text: Seq<char>) -> Option<bool> {
    if text == "true"@ {
        Some(true)
    } else if text == "false"@ {
        Some(false)
    } else {
        None
    }
}

/// The truth value of `flag`: `true` where it carries no value, else what
/// its value spells. `None` where the value spells no truth value.
pub open spec fn flag_bool(flag: Seq<char>) -> Option<bool> {
    match flag_value(flag) {
        Some(value) => bool_literal(value),
        None => Some(true),
    }
}

/// The complaint about `flag` where its value spells no truth value.
pub open spec fn bool_complaint(flag: Seq<char>) -> Seq<char> {
    "argument "@ + flag + " should be 'true' or 'false'"@
}

/// A flag without `=` is on.
pub proof fn lemma_bare_flag_is_true(flag: Seq<char>)
    requires
        !has_char(flag, '='),
    ensures
        flag_value(flag) is None,
        flag_string(flag) == Seq::<char>::empty(),
        flag_bool(flag) == Some(true),
{
    lemma_first_position(flag, '=');
}

/// The value of `name=value` is `value`, where `name` holds no `=`;
/// `value` may hold some.
pub proof fn lemma_value_follows_first_equals(name: Seq<char>, value: Seq<char>)
    requires
        !has_char(name, '='),
    ensures
        flag_value(name + seq!['='] + value) == Some(value),
        flag_string(name + seq!['='] + value) == value,
        flag_bool(name + seq!['='] + value) == bool_literal(value),
{
    let flag = name + seq!['='] + value;
    assert forall|j: int| 0 <= j < name.len() implies flag[j] != '=' by {
        assert(flag[j] == name[j]);
    }
    lemma_first_position_is(flag, '=', name.len() as int);
}

/// The complaint about `flag`: that its value should be `true` or `false`.
pub fn complaint(flag: &str) -> (text: String)
    ensures
        text@ == bool_complaint(flag@),
{
    let mut text = "argument ".to_owned();
    text.append(flag);
    text.append(" should be 'true' or 'false'");
    text
}

/// The truth value that `text` spells, if any.
pub fn parse_bool(text: &str) -> (value: Option<bool>)
    ensures
        value == bool_literal(text@),
{
    if same_text(text, "true") {
        Some(true)
    } else if same_text(text, "false") {
        Some(false)
    } else {
        None
    }
}

/// Something that can read a text or a truth value out of itself.
pub trait Arg {
    /// What a failed reading reports.
    type Error;

    /// The text that `self` carries.
    fn get_string(&self) -> Result<String, Self::Error>;

    /// The truth value that `self` carries.
    fn get_bool(&self) -> Result<bool, Self::Error>;
}

impl Arg for String {
    type Error = String;

    /// What follows the first `=`; the empty string where there is no `=`.
    /// Never fails.
    fn get_string(&self) -> (value: Result<String, String>)
        ensures
            value matches Ok(text) && text@ == flag_string(self@),
    {
        match split_once_char(self.as_str(), '=') {
            Some((_, after)) => Ok(after.to_owned()),
            None => {
                proof {
                    lemma_first_position(self@, '=');
                }
                Ok(String::new())
            },
        }
    }

    /// `true` for an argument without `=`, else the truth value that
    /// follows the first `=`. Fails, with [`bool_complaint`] as the
    /// message, exactly where what follows spells none.
    fn get_bool(&self) -> (value: Result<bool, String>)
        ensures
            match flag_bool(self@) {
                Some(b) => value == Ok::<bool, String>(b),
                None => value matches Err(complaint) && complaint@ == bool_complaint(self@),
            },
    {
        let parsed = match split_once_char(self.as_str(), '=') {
            Some((_, after)) => parse_bool(after),
            None => {
                proof {
                    lemma_first_position(self@, '=');
                }
                Some(true)
            },
        };
        match parsed {
            Some(b) => Ok(b),
            None => Err(complaint(self.as_str())),
        }
    }
}

} // verus!
