//! Property lists, the values that usbmuxd and WebInspector exchange.
//!
//! Bytes become values and values become bytes in the `plist` crate. The protocol code works on
//! [`PlistValue`], which holds in plain form what that code reads: dictionaries, strings, data,
//! flags and unsigned integers.

use crate::plist_dates;
use crate::text;
use plist::Error as PlistError;
use plist::Value as PlistCrateValue;
use vstd::prelude::*;
#[allow(unused_imports)]
use vstd::string::*;

verus! {

/// `plist::Value`, carried and not looked into.
#[verifier::external_type_specification]
#[verifier::external_body]
pub struct ExPlistCrateValue(PlistCrateValue);

/// A property list.
#[derive(Debug)]
pub enum PlistValue {
    /// Keys with their values, in the order in which they were put in.
    Dictionary(Vec<(String, PlistValue)>),
    Boolean(bool),
    Data(Vec<u8>),
    Unsigned(u64),
    Text(String),
    /// A value that no message of the protocols holds where it matters: an array, a date, a
    /// floating-point number, a UID or a negative integer.
    Other(PlistCrateValue),
}

/// What a [`PlistValue`] is, over characters and bytes.
pub enum PlistView {
    Dictionary(Seq<(Seq<char>, PlistView)>),
    Boolean(bool),
    Data(Seq<u8>),
    Unsigned(u64),
    Text(Seq<char>),
    Other,
}

/// The entries of a dictionary by their views.
pub open spec fn entries_view(d: Seq<(String, PlistValue)>) -> Seq<(Seq<char>, PlistView)>
    decreases d,
{
    Seq::new(
        d.len(),
        |i: int|
            if 0 <= i < d.len() {
                (d[i].0@, d[i].1.view())
            } else {
                arbitrary()
            },
    )
}

/// The value of the first entry under `key`.
pub open spec fn lookup(entries: Seq<(Seq<char>, PlistView)>, key: Seq<char>) -> Option<PlistView>
    decreases entries.len(),
{
    if entries.len() == 0 {
        None
    } else if entries[0].0 == key {
        Some(entries[0].1)
    } else {
        lookup(entries.skip(1), key)
    }
}

impl PlistView {
    /// The entries, if this is a dictionary.
    pub open spec fn dictionary(self) -> Option<Seq<(Seq<char>, PlistView)>> {
        match self {
            PlistView::Dictionary(d) => Some(d),
            _ => None,
        }
    }

    /// The characters, if this is a string.
    pub open spec fn string(self) -> Option<Seq<char>> {
        match self {
            PlistView::Text(s) => Some(s),
            _ => None,
        }
    }

    /// The bytes, if this is data.
    pub open spec fn data(self) -> Option<Seq<u8>> {
        match self {
            PlistView::Data(d) => Some(d),
            _ => None,
        }
    }

    /// The number, if this is an unsigned integer.
    pub open spec fn unsigned(self) -> Option<u64> {
        match self {
            PlistView::Unsigned(n) => Some(n),
            _ => None,
        }
    }

    /// The truth value, if this is a flag.
    pub open spec fn boolean(self) -> Option<bool> {
        match self {
            PlistView::Boolean(b) => Some(b),
            _ => None,
        }
    }
}

impl PlistValue {
    pub open spec fn view(self) -> PlistView
        decreases self,
    {
        match self {
            PlistValue::Dictionary(d) => PlistView::Dictionary(entries_view(d@)),
            PlistValue::Boolean(b) => PlistView::Boolean(b),
            PlistValue::Data(d) => PlistView::Data(d@),
            PlistValue::Unsigned(n) => PlistView::Unsigned(n),
            PlistValue::Text(s) => PlistView::Text(s@),
            PlistValue::Other(_) => PlistView::Other,
        }
    }

    /// The entries, if this is a dictionary.
    pub fn as_dictionary(&self) -> (r: Option<&Vec<(String, PlistValue)>>)
        ensures
            r is Some <==> self@.dictionary() is Some,
            r matches Some(d) ==> self@.dictionary() == Some(entries_view(d@)),
    {
        match self {
            PlistValue::Dictionary(d) => Some(d),
            _ => None,
        }
    }

    /// The string, if this is one.
    pub fn as_string(&self) -> (r: Option<&String>)
        ensures
            r is Some <==> self@.string() is Some,
            r matches Some(s) ==> self@.string() == Some(s@),
    {
        match self {
            PlistValue::Text(s) => Some(s),
            _ => None,
        }
    }

    /// The bytes, if this is data.
    pub fn as_data(&self) -> (r: Option<&Vec<u8>>)
        ensures
            r is Some <==> self@.data() is Some,
            r matches Some(d) ==> self@.data() == Some(d@),
    {
        match self {
            PlistValue::Data(d) => Some(d),
            _ => None,
        }
    }

    /// The number, if this is an unsigned integer.
    pub fn as_unsigned_integer(&self) -> (r: Option<u64>)
        ensures
            r == self@.unsigned(),
    {
        match self {
            PlistValue::Unsigned(n) => Some(*n),
            _ => None,
        }
    }

    /// The truth value, if this is a flag.
    pub fn as_boolean(&self) -> (r: Option<bool>)
        ensures
            r == self@.boolean(),
    {
        match self {
            PlistValue::Boolean(b) => Some(*b),
            _ => None,
        }
    }
}

/// The value under `key`, if there is one.
pub fn get<'a>(entries: &'a Vec<(String, PlistValue)>, key: &str) -> (r: Option<&'a PlistValue>)
    ensures
        r is Some <==> lookup(entries_view(entries@), key@) is Some,
        r matches Some(v) ==> lookup(entries_view(entries@), key@) == Some(v@),
{
    let ghost all = entries_view(entries@);
    let mut i: usize = 0;
    assert(all.skip(0) =~= all);
    while i < entries.len()
        invariant
            i <= entries@.len(),
            all == entries_view(entries@),
            lookup(all, key@) == lookup(all.skip(i as int), key@),
        decreases entries@.len() - i,
    {
        assert(all.skip(i as int)[0] == (entries@[i as int].0@, entries@[i as int].1@));
        if text::str_eq(entries[i].0.as_str(), key) {
            return Some(&entries[i].1);
        }
        assert(all.skip(i as int).skip(1) =~= all.skip(i + 1));
        i = i + 1;
    }
    None
}

/// The string under `key`, if there is a string there.
pub open spec fn string_at(entries: Seq<(Seq<char>, PlistView)>, key: Seq<char>) -> Option<
    Seq<char>,
> {
    match lookup(entries, key) {
        Some(v) => v.string(),
        None => None,
    }
}

/// The data under `key`, if there is data there.
pub open spec fn data_at(entries: Seq<(Seq<char>, PlistView)>, key: Seq<char>) -> Option<Seq<u8>> {
    match lookup(entries, key) {
        Some(v) => v.data(),
        None => None,
    }
}

/// The unsigned integer under `key`, if there is one there.
pub open spec fn unsigned_at(entries: Seq<(Seq<char>, PlistView)>, key: Seq<char>) -> Option<u64> {
    match lookup(entries, key) {
        Some(v) => v.unsigned(),
        None => None,
    }
}

/// The flag under `key`, if there is one there.
pub open spec fn boolean_at(entries: Seq<(Seq<char>, PlistView)>, key: Seq<char>) -> Option<bool> {
    match lookup(entries, key) {
        Some(v) => v.boolean(),
        None => None,
    }
}

/// The dictionary under `key`, if there is one there.
pub open spec fn dictionary_at(entries: Seq<(Seq<char>, PlistView)>, key: Seq<char>) -> Option<
    Seq<(Seq<char>, PlistView)>,
> {
    match lookup(entries, key) {
        Some(v) => v.dictionary(),
        None => None,
    }
}

/// Reads the string under `key`.
pub fn get_string(entries: &Vec<(String, PlistValue)>, key: &str) -> (r: Option<String>)
    ensures
        text::option_view(r) == string_at(entries_view(entries@), key@),
{
    match get(entries, key) {
        Some(v) => match v.as_string() {
            Some(s) => Some(s.clone()),
            None => None,
        },
        None => None,
    }
}

/// Reads the data under `key`.
pub fn get_data(entries: &Vec<(String, PlistValue)>, key: &str) -> (r: Option<Vec<u8>>)
    ensures
        r is Some <==> data_at(entries_view(entries@), key@) is Some,
        r matches Some(d) ==> data_at(entries_view(entries@), key@) == Some(d@),
{
    match get(entries, key) {
        Some(v) => match v.as_data() {
            Some(d) => Some(vstd::slice::slice_to_vec(d.as_slice())),
            None => None,
        },
        None => None,
    }
}

/// Reads the unsigned integer under `key`.
pub fn get_unsigned(entries: &Vec<(String, PlistValue)>, key: &str) -> (r: Option<u64>)
    ensures
        r == unsigned_at(entries_view(entries@), key@),
{
    match get(entries, key) {
        Some(v) => v.as_unsigned_integer(),
        None => None,
    }
}

/// Reads the flag under `key`.
pub fn get_boolean(entries: &Vec<(String, PlistValue)>, key: &str) -> (r: Option<bool>)
    ensures
        r == boolean_at(entries_view(entries@), key@),
{
    match get(entries, key) {
        Some(v) => v.as_boolean(),
        None => None,
    }
}

/// Reads the dictionary under `key`.
pub fn get_dictionary<'a>(entries: &'a Vec<(String, PlistValue)>, key: &str) -> (r: Option<
    &'a Vec<(String, PlistValue)>,
>)
    ensures
        r is Some <==> dictionary_at(entries_view(entries@), key@) is Some,
        r matches Some(d) ==> dictionary_at(entries_view(entries@), key@) == Some(entries_view(d@)),
{
    match get(entries, key) {
        Some(v) => v.as_dictionary(),
        None => None,
    }
}

// ---------------------------------------------------------------------------------------------
// Bytes
// ---------------------------------------------------------------------------------------------

/// What `plist::from_bytes` reads in `data`, whatever the encoding: nothing where it fails.
pub uninterp spec fn plist_read(data: Seq<u8>) -> Option<PlistView>;

/// The bytes that `plist::Value::to_writer_binary` writes for `value`.
pub uninterp spec fn plist_written(value: PlistView) -> Seq<u8>;

/// Whether a value is one that a message holds directly.
pub open spec fn is_scalar(v: PlistView) -> bool {
    v is Boolean || v is Data || v is Unsigned || v is Text
}

/// Whether no key comes twice.
pub open spec fn distinct_keys(entries: Seq<(Seq<char>, PlistView)>) -> bool {
    forall|i: int, j: int|
        0 <= i < j < entries.len() ==> (#[trigger] entries[i]).0 != (#[trigger] entries[j]).0
}

/// Whether every value of a dictionary is a scalar, and no key comes twice.
pub open spec fn is_flat(entries: Seq<(Seq<char>, PlistView)>) -> bool {
    &&& distinct_keys(entries)
    &&& forall|i: int| 0 <= i < entries.len() ==> is_scalar((#[trigger] entries[i]).1)
}

/// The values that this library writes: a dictionary of scalars and of dictionaries of scalars.
pub open spec fn is_message(v: PlistView) -> bool {
    v matches PlistView::Dictionary(d) && distinct_keys(d) && forall|i: int|
        0 <= i < d.len() ==> is_scalar((#[trigger] d[i]).1) || (d[i].1 matches PlistView::Dictionary(
            e,
        ) && is_flat(e))
}

/// Whether a value is made of what [`PlistView`] spells out, all the way down.
pub open spec fn is_plain(v: PlistView) -> bool
    decreases v,
{
    match v {
        PlistView::Dictionary(d) => forall|i: int| 0 <= i < d.len() ==> is_plain((#[trigger] d[i]).1),
        PlistView::Other => false,
        _ => true,
    }
}

/// A message is plain.
pub proof fn lemma_message_is_plain(v: PlistView)
    requires
        is_message(v),
    ensures
        is_plain(v),
{
    let d = v.dictionary().unwrap();
    assert forall|i: int| 0 <= i < d.len() implies is_plain((#[trigger] d[i]).1) by {
        if let PlistView::Dictionary(e) = d[i].1 {
            assert forall|k: int| 0 <= k < e.len() implies is_plain((#[trigger] e[k]).1) by {
                assert(is_scalar(e[k].1));
            }
        }
    }
}

/// A `plist::Value` in the library's form. Arrays, dates, floating-point numbers, UIDs and
/// negative integers are carried along as they are.
#[verifier::external_body]
fn from_plist_crate(value: PlistCrateValue) -> PlistValue {
    match value {
        PlistCrateValue::Dictionary(d) => PlistValue::Dictionary(
            d.into_iter().map(|(k, v)| (k, from_plist_crate(v))).collect(),
        ),
        PlistCrateValue::Boolean(b) => PlistValue::Boolean(b),
        PlistCrateValue::Data(d) => PlistValue::Data(d),
        PlistCrateValue::Integer(i) => match i.as_unsigned() {
            Some(n) => PlistValue::Unsigned(n),
            None => PlistValue::Other(PlistCrateValue::Integer(i)),
        },
        PlistCrateValue::String(s) => PlistValue::Text(s),
        other => PlistValue::Other(other),
    }
}

/// A value of the library as a `plist::Value`: the inverse of [`from_plist_crate`].
#[verifier::external_body]
fn to_plist_crate(value: &PlistValue) -> PlistCrateValue {
    match value {
        PlistValue::Dictionary(d) => PlistCrateValue::Dictionary(
            d.iter().map(|(k, v)| (k.clone(), to_plist_crate(v))).collect(),
        ),
        PlistValue::Boolean(b) => PlistCrateValue::Boolean(*b),
        PlistValue::Data(d) => PlistCrateValue::Data(d.clone()),
        PlistValue::Unsigned(n) => PlistCrateValue::Integer((*n).into()),
        PlistValue::Text(s) => PlistCrateValue::String(s.clone()),
        PlistValue::Other(v) => v.clone(),
    }
}

/// `plist::from_bytes`, read as a `plist::Value`: what it reads, or that it fails, depends on the
/// bytes alone. Bytes with a date that it panics on are left out. Memory, and stack for nested
/// values, are taken to suffice.
#[verifier::external_body]
pub(crate) fn read_bytes(data: &[u8]) -> (r: std::result::Result<PlistValue, PlistError>)
    requires
        plist_dates::dates_fit(data@),
    ensures
        r is Ok <==> plist_read(data@) is Some,
        r matches Ok(v) ==> plist_read(data@) == Some(v@),
{
    plist::from_bytes::<PlistCrateValue>(data).map(from_plist_crate)
}

/// `plist::Value::to_writer_binary` into a vector, which does not fail. The bytes depend on the
/// value alone, and there are always some, since the format begins with a signature. The messages
/// that this library sends are read back by `plist::from_bytes` as they were written; there is no
/// date among their objects, to which the table in the bytes points.
#[verifier::external_body]
pub(crate) fn write_binary(value: &PlistValue) -> (r: Vec<u8>)
    ensures
        is_plain(value@) ==> r@ == plist_written(value@),
        is_message(value@) ==> plist_read(r@) == Some(value@) && plist_dates::dates_fit(r@),
        r@.len() > 0,
{
    let mut buf = Vec::new();
    to_plist_crate(value).to_writer_binary(&mut buf).expect("plist serialization failed");
    buf
}

} // verus!
