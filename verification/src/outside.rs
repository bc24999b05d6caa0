//! Items of other crates that the library carries or calls, with what is
//! taken on trust about each. Nothing here is proved.

use serde_json::Value;
use tokio::sync::mpsc::{Receiver, Sender};
use url::Url;
use vstd::prelude::*;

verus! {

/// The sending half of a bounded queue. The library carries it and never
/// looks inside.
#[verifier::external_type_specification]
#[verifier::external_body]
#[verifier::reject_recursive_types(T)]
pub struct ExSender<T>(Sender<T>);

/// The receiving half of a bounded queue. The library hands it out and never
/// looks inside.
#[verifier::external_type_specification]
#[verifier::external_body]
#[verifier::reject_recursive_types(T)]
pub struct ExReceiver<T>(Receiver<T>);

/// A parsed URL. The library hands it on and never looks inside.
#[verifier::external_type_specification]
#[verifier::external_body]
pub struct ExUrl(Url);

/// The reason for which a text is no URL.
#[verifier::external_type_specification]
#[verifier::external_body]
pub struct ExParseError(url::ParseError);

/// The largest capacity that a bounded queue can be made with.
pub open spec fn max_queue_capacity() -> int {
    (usize::MAX / 8) as int
}

/// `tokio::sync::mpsc::channel`: makes a bounded queue and returns its two
/// halves. The call panics on a capacity of zero and on one above
/// `usize::MAX >> 3`, which the precondition leaves out. Nothing is claimed
/// of the halves.
pub assume_specification<T>[ tokio::sync::mpsc::channel::<T> ](buffer: usize) -> (halves: (Sender<T>, Receiver<T>))
    requires
        0 < buffer <= max_queue_capacity(),
;

/// `Clone::clone` of a `Sender`: another handle. Nothing is claimed of it.
pub assume_specification<T>[ <Sender<T> as Clone>::clone ](sender: &Sender<T>) -> (copy: Sender<T>)
;

/// What `Url::parse` makes of a text: the URL that the text is, or the reason
/// why it is none.
pub uninterp spec fn parsed_url(input: Seq<char>) -> Result<Url, url::ParseError>;

/// `Url::parse`: reads an absolute URL from a text, or says why the text is
/// none. The outcome depends on the text alone.
pub assume_specification[ Url::parse ](input: &str) -> (parsed: Result<Url, url::ParseError>)
    ensures
        parsed == parsed_url(input@),
;

/// A JSON value. The library asks it for a member and compares it with a
/// text, and never looks inside.
#[verifier::external_type_specification]
#[verifier::external_body]
pub struct ExValue(Value);

/// The reason for which a text is no JSON.
#[verifier::external_type_specification]
#[verifier::external_body]
pub struct ExJsonError(serde_json::Error);

/// What `serde_json::from_str` makes of a text when asked for a `Value`: the
/// JSON value that the text is, or the reason why it is none.
pub uninterp spec fn parsed_json(text: Seq<char>) -> Result<Value, serde_json::Error>;

/// What indexing a JSON value with a string gives: the member of that name
/// where the value is an object that has one, and the null value otherwise.
pub uninterp spec fn json_member(value: Value, key: Seq<char>) -> Value;

/// Whether a JSON value and a text compare equal: whether the value is a
/// string of just these characters.
pub uninterp spec fn json_is_text(value: Value, text: Seq<char>) -> bool;

/// `serde_json::from_str`, asked for a `Value`. The outcome depends on the
/// text alone.
#[verifier::external_body]
pub(crate) fn json_from_str(text: &str) -> (parsed: Result<Value, serde_json::Error>)
    ensures
        parsed == parsed_json(text@),
{
    serde_json::from_str(text)
}

/// `Index::index` of a `Value` with a string: the member of that name, or
/// the null value. The call does not panic on a value without such a member.
#[verifier::external_body]
pub(crate) fn json_index<'a>(value: &'a Value, key: &str) -> (member: &'a Value)
    ensures
        *member == json_member(*value, key@),
{
    &value[key]
}

/// `PartialEq::eq` of a `Value` with a string.
#[verifier::external_body]
pub(crate) fn json_eq_str(value: &Value, text: &str) -> (same: bool)
    ensures
        same == json_is_text(*value, text@),
{
    *value == text
}

} // verus!
