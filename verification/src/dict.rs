//! The dictionary of the format: strings keyed by strings, each key once.
//!
//! The entries are kept in the order in which their keys first came, so a
//! dictionary that is written and read again comes back entry for entry.
//! A key is found by going through the entries, which are few in the files
//! that programs write; looking up and storing take time in proportion to
//! their number.

use vstd::prelude::*;
use vstd::string::*;
use vstd::set_lib::lemma_subset_equality;
use vstd::utf8::{
    decode_utf8, encode_utf8, encode_utf8_decode_utf8, encode_utf8_valid_utf8, valid_utf8,
};
use crate::bytes::{
    concat_map, le_u32, lemma_concat_map_len, lemma_concat_map_push, lemma_parse_u32_written,
    lemma_repeat_parse_written, lemma_take_written, lemma_u32_bytes_round_trip, push_bytes,
    push_u32, repeat_parse, spec_parse_u32, spec_take, spec_u32_bytes, spec_validate_count, take,
    validate_count,
};
use crate::error::{FormatError, WriteError};
use crate::text::{same_text, to_str};

verus! {

/// A key with its value, as text.
pub type Entry = (Seq<char>, Seq<char>);

/// Whether some entry of `s` has the key `key`.
pub open spec fn entries_has(s: Seq<Entry>, key: Seq<char>) -> bool {
    exists|k: int| 0 <= k < s.len() && (#[trigger] s[k]).0 == key
}

/// The position of an entry of `s` with the key `key`, where there is one.
pub open spec fn entries_position(s: Seq<Entry>, key: Seq<char>) -> int {
    choose|k: int| 0 <= k < s.len() && (#[trigger] s[k]).0 == key
}

/// The value that `s` holds for `key`.
pub open spec fn entries_get(s: Seq<Entry>, key: Seq<char>) -> Option<Seq<char>> {
    if entries_has(s, key) {
        Some(s[entries_position(s, key)].1)
    } else {
        None
    }
}

/// No two entries of `s` have the same key.
pub open spec fn entries_unique(s: Seq<Entry>) -> bool {
    forall|j: int, k: int| 0 <= j < k < s.len() ==> (#[trigger] s[j]).0 != (#[trigger] s[k]).0
}

/// `s` with `value` stored under `key`: in the place of the entry that had
/// the key, or at the end where none had.
pub open spec fn entries_insert(s: Seq<Entry>, key: Seq<char>, value: Seq<char>) -> Seq<Entry> {
    if entries_has(s, key) {
        s.update(entries_position(s, key), (key, value))
    } else {
        s.push((key, value))
    }
}

/// The mapping that the entries of `s` stand for.
pub open spec fn entries_map(s: Seq<Entry>) -> Map<Seq<char>, Seq<char>> {
    Map::new(|key: Seq<char>| entries_has(s, key), |key: Seq<char>| entries_get(s, key).unwrap())
}

/// Storing a value keeps the keys unique, and changes what is found under
/// the stored key only.
pub proof fn lemma_entries_insert(s: Seq<Entry>, key: Seq<char>, value: Seq<char>)
    requires
        entries_unique(s),
    ensures
        entries_unique(entries_insert(s, key, value)),
        entries_get(entries_insert(s, key, value), key) == Some(value),
        forall|other: Seq<char>|
            other != key ==> #[trigger] entries_get(entries_insert(s, key, value), other)
                == entries_get(s, other),
        entries_map(entries_insert(s, key, value)) == entries_map(s).insert(key, value),
{
    let t = entries_insert(s, key, value);
    let at: int = if entries_has(s, key) {
        entries_position(s, key)
    } else {
        s.len() as int
    };
    assert(t[at] == (key, value));
    assert(entries_has(t, key));
    assert forall|other: Seq<char>| other != key implies #[trigger] entries_get(t, other)
        == entries_get(s, other) by {
        if entries_has(s, other) {
            let k = entries_position(s, other);
            assert(t[k] == s[k]);
            assert(entries_has(t, other));
            let k2 = entries_position(t, other);
            assert(s[k2] == t[k2]);
        } else if entries_has(t, other) {
            let k2 = entries_position(t, other);
            assert(k2 != at);
            assert(s[k2].0 == other);
        }
    }
    assert(entries_map(t) =~= entries_map(s).insert(key, value)) by {
        assert forall|other: Seq<char>| entries_has(t, other) == (other == key || entries_has(
            s,
            other,
        )) by {
            if other != key {
                assert(entries_get(t, other) == entries_get(s, other));
            }
        }
    }
}

/// Where the keys are unique, the entry at a position is the one found under
/// its key.
pub proof fn lemma_entries_get_at(s: Seq<Entry>, k: int)
    requires
        entries_unique(s),
        0 <= k < s.len(),
    ensures
        entries_has(s, s[k].0),
        entries_position(s, s[k].0) == k,
        entries_get(s, s[k].0) == Some(s[k].1),
{
}

/// Where the keys are unique, the mapping has as many keys as there are
/// entries.
pub proof fn lemma_entries_map_len(s: Seq<Entry>)
    requires
        entries_unique(s),
    ensures
        entries_map(s).dom().finite(),
        entries_map(s).dom().len() == s.len(),
    decreases s.len(),
{
    if s.len() == 0 {
        assert(entries_map(s).dom() =~= Set::<Seq<char>>::empty());
    } else {
        let front = s.drop_last();
        let last = s.last();
        assert(entries_unique(front)) by {
            assert forall|j: int, k: int| 0 <= j < k < front.len() implies (#[trigger] front[j]).0 != (
            #[trigger] front[k]).0 by {
                assert(front[j] == s[j] && front[k] == s[k]);
            }
        }
        lemma_entries_map_len(front);
        if entries_has(front, last.0) {
            let k = entries_position(front, last.0);
            assert(s[k] == front[k]);
            assert(s[s.len() - 1] == last);
        }
        assert(entries_insert(front, last.0, last.1) =~= s);
        lemma_entries_insert(front, last.0, last.1);
        assert(entries_map(s).dom() =~= entries_map(front).dom().insert(last.0));
    }
}

/// The dictionary that comes of storing the entries of `raw`, one after
/// another, in an empty one.
pub open spec fn entries_collect(raw: Seq<Entry>) -> Seq<Entry>
    decreases raw.len(),
{
    if raw.len() == 0 {
        Seq::<Entry>::empty()
    } else {
        entries_insert(entries_collect(raw.drop_last()), raw.last().0, raw.last().1)
    }
}

/// Collected entries have unique keys.
pub proof fn lemma_entries_collect_unique(raw: Seq<Entry>)
    ensures
        entries_unique(entries_collect(raw)),
    decreases raw.len(),
{
    if raw.len() > 0 {
        lemma_entries_collect_unique(raw.drop_last());
        lemma_entries_insert(entries_collect(raw.drop_last()), raw.last().0, raw.last().1);
    }
}

/// Entries whose keys are unique are collected as they stand.
pub proof fn lemma_entries_collect_same(s: Seq<Entry>)
    requires
        entries_unique(s),
    ensures
        entries_collect(s) == s,
    decreases s.len(),
{
    if s.len() > 0 {
        let front = s.drop_last();
        assert forall|j: int, k: int| 0 <= j < k < front.len() implies (#[trigger] front[j]).0 != (
        #[trigger] front[k]).0 by {
            assert(front[j] == s[j] && front[k] == s[k]);
        }
        lemma_entries_collect_same(front);
        if entries_has(front, s.last().0) {
            let k = entries_position(front, s.last().0);
            assert(s[k] == front[k]);
            assert(s[s.len() - 1] == s.last());
        }
        assert(entries_insert(front, s.last().0, s.last().1) =~= s);
    } else {
        assert(entries_collect(s) =~= s);
    }
}

/// A string as it lies in a file: the number of its bytes, then the bytes.
pub open spec fn spec_string_bytes(text: Seq<char>) -> Seq<u8> {
    spec_u32_bytes(encode_utf8(text).len() as u32) + encode_utf8(text)
}

/// The string has few enough bytes for its length to be written.
pub open spec fn string_fits(text: Seq<char>) -> bool {
    encode_utf8(text).len() <= u32::MAX
}

/// Reads a string: a length, then so many bytes of UTF-8.
pub open spec fn spec_parse_string(i: Seq<u8>) -> Result<(Seq<u8>, Seq<char>), FormatError> {
    match spec_parse_u32(i) {
        Err(e) => Err(e),
        Ok((rest, n)) => match spec_take(rest, n as nat) {
            Err(e) => Err(e),
            Ok((rest, bytes)) => if valid_utf8(bytes) {
                Ok((rest, decode_utf8(bytes)))
            } else {
                Err(FormatError::InvalidUtf8)
            },
        },
    }
}

/// An entry as it lies in a file: the key, then the value.
pub open spec fn spec_entry_bytes(entry: Entry) -> Seq<u8> {
    spec_string_bytes(entry.0) + spec_string_bytes(entry.1)
}

/// Both strings of the entry can be written.
pub open spec fn entry_fits(entry: Entry) -> bool {
    string_fits(entry.0) && string_fits(entry.1)
}

/// Reads an entry: a key, then a value.
pub open spec fn spec_parse_entry(i: Seq<u8>) -> Result<(Seq<u8>, Entry), FormatError> {
    match spec_parse_string(i) {
        Err(e) => Err(e),
        Ok((rest, key)) => match spec_parse_string(rest) {
            Err(e) => Err(e),
            Ok((rest, value)) => Ok((rest, (key, value))),
        },
    }
}

/// A dictionary as it lies in a file: the number of its entries, then the
/// entries in their order.
pub open spec fn spec_dict_bytes(entries: Seq<Entry>) -> Seq<u8> {
    spec_u32_bytes(entries.len() as u32) + concat_map(entries, |e: Entry| spec_entry_bytes(e))
}

/// The dictionary can be written: the number of its entries and the length
/// of each string fit in 32 bits.
pub open spec fn dict_fits(entries: Seq<Entry>) -> bool {
    &&& entries.len() <= u32::MAX
    &&& forall|k: int| 0 <= k < entries.len() ==> entry_fits(#[trigger] entries[k])
}

/// Reads a dictionary: a number of entries, which must be able to lie in
/// the bytes that follow at eight bytes or more each, then so many entries.
/// Of two entries with the same key the later one gives the value.
pub open spec fn spec_parse_dict(i: Seq<u8>) -> Result<(Seq<u8>, Seq<Entry>), FormatError> {
    match spec_parse_u32(i) {
        Err(e) => Err(e),
        Ok((rest, n)) => match spec_validate_count(rest.len(), n, 8) {
            Err(e) => Err(e),
            Ok(count) => match repeat_parse(
                |b: Seq<u8>| spec_parse_entry(b),
                rest,
                count,
                Seq::<Entry>::empty(),
            ) {
                Err(e) => Err(e),
                Ok((rest, raw)) => Ok((rest, entries_collect(raw))),
            },
        },
    }
}

/// A string that was written in front of `tail` is read back, and `tail` is
/// left.
pub proof fn lemma_string_written(text: Seq<char>, tail: Seq<u8>)
    requires
        string_fits(text),
    ensures
        spec_parse_string(spec_string_bytes(text) + tail) == Ok::<
            (Seq<u8>, Seq<char>),
            FormatError,
        >((tail, text)),
        spec_string_bytes(text).len() >= 4,
{
    let bytes = encode_utf8(text);
    let n = bytes.len() as u32;
    assert(spec_string_bytes(text) + tail =~= spec_u32_bytes(n) + (bytes + tail));
    lemma_parse_u32_written(n, bytes + tail);
    lemma_take_written(bytes, tail);
    lemma_u32_bytes_round_trip(n);
    encode_utf8_valid_utf8(text);
    encode_utf8_decode_utf8(text);
}

/// An entry that was written in front of `tail` is read back, and `tail` is
/// left.
pub proof fn lemma_entry_written(entry: Entry, tail: Seq<u8>)
    requires
        entry_fits(entry),
    ensures
        spec_parse_entry(spec_entry_bytes(entry) + tail) == Ok::<(Seq<u8>, Entry), FormatError>(
            (tail, entry),
        ),
        spec_entry_bytes(entry).len() >= 8,
{
    assert(spec_entry_bytes(entry) + tail =~= spec_string_bytes(entry.0) + (spec_string_bytes(
        entry.1,
    ) + tail));
    lemma_string_written(entry.0, spec_string_bytes(entry.1) + tail);
    lemma_string_written(entry.1, tail);
}

/// A dictionary that was written in front of `tail` is read back entry for
/// entry, and `tail` is left.
pub proof fn lemma_dict_written(entries: Seq<Entry>, tail: Seq<u8>)
    requires
        entries_unique(entries),
        dict_fits(entries),
    ensures
        spec_parse_dict(spec_dict_bytes(entries) + tail) == Ok::<
            (Seq<u8>, Seq<Entry>),
            FormatError,
        >((tail, entries)),
        spec_dict_bytes(entries).len() >= 4,
{
    let write = |e: Entry| spec_entry_bytes(e);
    let read = |b: Seq<u8>| spec_parse_entry(b);
    let valid = |e: Entry| entry_fits(e);
    let n = entries.len() as u32;
    let body = concat_map(entries, write);
    assert(spec_dict_bytes(entries) + tail =~= spec_u32_bytes(n) + (body + tail));
    lemma_parse_u32_written(n, body + tail);
    lemma_u32_bytes_round_trip(n);
    assert forall|e: Entry, t: Seq<u8>| valid(e) implies #[trigger] read(write(e) + t) == Ok::<
        (Seq<u8>, Entry),
        FormatError,
    >((t, e)) by {
        lemma_entry_written(e, t);
    }
    assert forall|k: int| 0 <= k < entries.len() implies write(#[trigger] entries[k]).len()
        >= 8 by {
        lemma_entry_written(entries[k], tail);
    }
    lemma_concat_map_len(entries, write, 8);
    assert(entries.len() <= (body + tail).len() / 8) by {
        assert(entries.len() * 8 <= (body + tail).len());
    }
    lemma_repeat_parse_written(read, write, valid, entries, tail, Seq::<Entry>::empty());
    assert(Seq::<Entry>::empty() + entries =~= entries);
    lemma_entries_collect_same(entries);
}

/// The attributes of a node, a frame, a layer or a material.
#[derive(Debug)]
pub struct Dict {
    entries: Vec<(String, String)>,
}

impl View for Dict {
    type V = Map<Seq<char>, Seq<char>>;

    /// The mapping from keys to values.
    open spec fn view(&self) -> Map<Seq<char>, Seq<char>> {
        entries_map(self.entries())
    }
}

impl DeepView for Dict {
    type V = Seq<Entry>;

    /// The entries, in the order in which their keys first came.
    open spec fn deep_view(&self) -> Seq<Entry> {
        self.entries()
    }
}

impl Default for Dict {
    /// A dictionary without entries.
    fn default() -> (d: Dict)
        ensures
            d.entries() == Seq::<Entry>::empty(),
    {
        Dict::new()
    }
}

impl Dict {
    #[verifier::type_invariant]
    spec fn inv(&self) -> bool {
        entries_unique(self.entries.deep_view())
    }

    /// The entries as text, in the order in which their keys first came.
    pub closed spec fn entries(&self) -> Seq<Entry> {
        self.entries.deep_view()
    }

    /// No key occurs twice. Every dictionary that the program holds is so.
    pub open spec fn wf(&self) -> bool {
        entries_unique(self.entries())
    }

    /// The value stored under `key`.
    pub open spec fn spec_get(&self, key: Seq<char>) -> Option<Seq<char>> {
        entries_get(self.entries(), key)
    }

    /// A dictionary without entries, with room for `capacity` of them.
    pub fn with_capacity(capacity: usize) -> (d: Dict)
        ensures
            d.entries() == Seq::<Entry>::empty(),
            d.wf(),
    {
        let d = Dict { entries: Vec::with_capacity(capacity) };
        assert(d.entries.deep_view() =~= Seq::<Entry>::empty());
        d
    }

    /// A dictionary without entries.
    pub fn new() -> (d: Dict)
        ensures
            d.entries() == Seq::<Entry>::empty(),
            d.wf(),
    {
        let d = Dict { entries: Vec::new() };
        assert(d.entries.deep_view() =~= Seq::<Entry>::empty());
        d
    }

    /// The number of entries.
    pub fn len(&self) -> (n: usize)
        ensures
            n == self.entries().len(),
            self.wf(),
    {
        proof {
            use_type_invariant(self);
        }
        self.entries.len()
    }

    /// Whether there is no entry.
    pub fn is_empty(&self) -> (b: bool)
        ensures
            b == (self.entries().len() == 0),
    {
        self.entries.len() == 0
    }

    /// The position of the entry with the key `key`.
    fn find(&self, key: &str) -> (at: Option<usize>)
        ensures
            match at {
                Some(k) => k < self.entries().len() && self.entries()[k as int].0 == key@,
                None => !entries_has(self.entries(), key@),
            },
    {
        let mut k: usize = 0;
        while k < self.entries.len()
            invariant
                k <= self.entries@.len(),
                forall|j: int| 0 <= j < k ==> (#[trigger] self.entries()[j]).0 != key@,
            decreases self.entries@.len() - k,
        {
            if same_text(self.entries[k].0.as_str(), key) {
                return Some(k);
            }
            k = k + 1;
        }
        None
    }

    /// The value stored under `key`.
    pub fn get(&self, key: &str) -> (value: Option<&String>)
        ensures
            match value {
                Some(v) => self.spec_get(key@) == Some(v@),
                None => self.spec_get(key@) == None::<Seq<char>>,
            },
    {
        proof {
            use_type_invariant(self);
        }
        match self.find(key) {
            Some(k) => {
                proof {
                    lemma_entries_get_at(self.entries(), k as int);
                }
                Some(&self.entries[k].1)
            },
            None => None,
        }
    }

    /// The entry at `index`, in the order in which the keys first came: the
    /// key and its value.
    pub fn entry_at(&self, index: usize) -> (entry: Option<(&str, &str)>)
        ensures
            match entry {
                Some((key, value)) => index < self.entries().len() && self.entries()[index as int]
                    == (key@, value@),
                None => index >= self.entries().len(),
            },
    {
        if index < self.entries.len() {
            Some((self.entries[index].0.as_str(), self.entries[index].1.as_str()))
        } else {
            None
        }
    }

    /// Whether a value is stored under `key`.
    pub fn contains_key(&self, key: &str) -> (b: bool)
        ensures
            b == entries_has(self.entries(), key@),
    {
        self.find(key).is_some()
    }

    /// Stores `value` under `key` and returns the value that was there.
    pub fn insert(&mut self, key: String, value: String) -> (previous: Option<String>)
        ensures
            final(self).entries() == entries_insert(old(self).entries(), key@, value@),
            final(self).wf(),
            match previous {
                Some(v) => old(self).spec_get(key@) == Some(v@),
                None => old(self).spec_get(key@) == None::<Seq<char>>,
            },
    {
        proof {
            use_type_invariant(&*self);
            lemma_entries_insert(self.entries(), key@, value@);
        }
        let found = self.find(key.as_str());
        let mut entries: Vec<(String, String)> = Vec::new();
        assert(entries.deep_view() =~= Seq::<Entry>::empty());
        core::mem::swap(&mut self.entries, &mut entries);
        let previous = match found {
            Some(k) => {
                proof {
                    lemma_entries_get_at(old(self).entries(), k as int);
                }
                entries.push((key, value));
                let replaced = entries.swap_remove(k);
                Some(replaced.1)
            },
            None => {
                entries.push((key, value));
                None
            },
        };
        assert(entries.deep_view() =~= entries_insert(old(self).entries(), key@, value@));
        core::mem::swap(&mut self.entries, &mut entries);
        previous
    }
}

/// Reads a string from the front of `i`.
pub fn parse_string(i: &[u8]) -> (r: Result<(&[u8], String), FormatError>)
    ensures
        match r {
            Ok((rest, text)) => spec_parse_string(i@) == Ok::<(Seq<u8>, Seq<char>), FormatError>(
                (rest@, text@),
            ),
            Err(e) => spec_parse_string(i@) == Err::<(Seq<u8>, Seq<char>), FormatError>(e),
        },
{
    let (rest, n) = le_u32(i)?;
    let (rest, bytes) = take(rest, n as usize)?;
    match to_str(bytes) {
        Ok(text) => Ok((rest, text)),
        Err(_) => Err(FormatError::InvalidUtf8),
    }
}

/// Reads a key and its value from the front of `i`.
pub fn parse_dict_entry(i: &[u8]) -> (r: Result<(&[u8], (String, String)), FormatError>)
    ensures
        match r {
            Ok((rest, entry)) => spec_parse_entry(i@) == Ok::<(Seq<u8>, Entry), FormatError>(
                (rest@, (entry.0@, entry.1@)),
            ),
            Err(e) => spec_parse_entry(i@) == Err::<(Seq<u8>, Entry), FormatError>(e),
        },
{
    let (rest, key) = parse_string(i)?;
    let (rest, value) = parse_string(rest)?;
    Ok((rest, (key, value)))
}

/// Reads a dictionary from the front of `i`.
pub fn parse_dict(i: &[u8]) -> (r: Result<(&[u8], Dict), FormatError>)
    ensures
        match r {
            Ok((rest, dict)) => spec_parse_dict(i@) == Ok::<(Seq<u8>, Seq<Entry>), FormatError>(
                (rest@, dict.entries()),
            ) && dict.wf() && dict.entries().len() <= i@.len() / 8,
            Err(e) => spec_parse_dict(i@) == Err::<(Seq<u8>, Seq<Entry>), FormatError>(e),
        },
{
    let (start, n) = le_u32(i)?;
    let count = validate_count(start, n, 8)?;
    let mut dict = Dict::with_capacity(count);
    let mut rest: &[u8] = start;
    let ghost mut raw: Seq<Entry> = Seq::empty();
    let mut k: usize = 0;
    while k < count
        invariant
            k <= count,
            raw.len() == k,
            spec_parse_u32(i@) == Ok::<(Seq<u8>, u32), FormatError>((start@, n)),
            spec_validate_count(start@.len(), n, 8) == Ok::<nat, FormatError>(count as nat),
            dict.entries() == entries_collect(raw),
            dict.entries().len() <= k,
            dict.wf(),
            repeat_parse(
                |b: Seq<u8>| spec_parse_entry(b),
                start@,
                count as nat,
                Seq::<Entry>::empty(),
            ) == repeat_parse(|b: Seq<u8>| spec_parse_entry(b), rest@, (count - k) as nat, raw),
        decreases count - k,
    {
        let (after, entry) = parse_dict_entry(rest)?;
        proof {
            assert(raw.push((entry.0@, entry.1@)).drop_last() =~= raw);
            raw = raw.push((entry.0@, entry.1@));
        }
        dict.insert(entry.0, entry.1);
        rest = after;
        k = k + 1;
    }
    Ok((rest, dict))
}

/// Appends a string: the number of its bytes, then the bytes.
pub fn write_string(buffer: &mut Vec<u8>, text: &str) -> (r: Result<(), WriteError>)
    ensures
        match r {
            Ok(()) => string_fits(text@) && final(buffer)@ == old(buffer)@ + spec_string_bytes(
                text@,
            ),
            Err(e) => !string_fits(text@) && e == WriteError::TooLong,
        },
{
    let bytes = text.as_bytes();
    if bytes.len() > u32::MAX as usize {
        return Err(WriteError::TooLong);
    }
    push_u32(buffer, bytes.len() as u32);
    push_bytes(buffer, bytes);
    assert(buffer@ =~= old(buffer)@ + spec_string_bytes(text@));
    Ok(())
}

/// Appends a dictionary: the number of its entries, then each key with its
/// value.
pub fn write_dict(buffer: &mut Vec<u8>, dict: &Dict) -> (r: Result<(), WriteError>)
    ensures
        match r {
            Ok(()) => dict_fits(dict.entries()) && final(buffer)@ == old(buffer)@
                + spec_dict_bytes(dict.entries()),
            Err(e) => !dict_fits(dict.entries()) && e == WriteError::TooLong,
        },
{
    let count: usize = dict.entries.len();
    if count > u32::MAX as usize {
        return Err(WriteError::TooLong);
    }
    push_u32(buffer, count as u32);
    let ghost write = |e: Entry| spec_entry_bytes(e);
    let mut k: usize = 0;
    while k < count
        invariant
            k <= count,
            count == dict.entries@.len(),
            count == dict.entries().len(),
            write == (|e: Entry| spec_entry_bytes(e)),
            forall|j: int| 0 <= j < k ==> entry_fits(#[trigger] dict.entries()[j]),
            buffer@ == old(buffer)@ + spec_u32_bytes(count as u32) + concat_map(
                dict.entries().subrange(0, k as int),
                write,
            ),
        decreases count - k,
    {
        let ghost entry = dict.entries()[k as int];
        proof {
            lemma_concat_map_push(dict.entries().subrange(0, k as int), write, entry);
            assert(dict.entries().subrange(0, k as int).push(entry) =~= dict.entries().subrange(
                0,
                k + 1,
            ));
        }
        write_string(buffer, dict.entries[k].0.as_str())?;
        write_string(buffer, dict.entries[k].1.as_str())?;
        assert(buffer@ =~= old(buffer)@ + spec_u32_bytes(count as u32) + concat_map(
            dict.entries().subrange(0, k + 1),
            write,
        ));
        k = k + 1;
    }
    assert(dict.entries().subrange(0, k as int) =~= dict.entries());
    Ok(())
}

impl Clone for Dict {
    /// A dictionary with the same entries in the same order.
    fn clone(&self) -> (copy: Dict)
        ensures
            copy.entries() == self.entries(),
    {
        proof {
            use_type_invariant(self);
        }
        let mut entries: Vec<(String, String)> = Vec::new();
        let mut k: usize = 0;
        while k < self.entries.len()
            invariant
                k <= self.entries@.len(),
                entries.deep_view() == self.entries.deep_view().subrange(0, k as int),
            decreases self.entries@.len() - k,
        {
            let ghost before = entries.deep_view();
            let ghost before_view = entries@;
            assert(before.len() == k);
            assert(before_view.len() == k);
            let key = self.entries[k].0.clone();
            let value = self.entries[k].1.clone();
            entries.push((key, value));
            assert forall|j: int| 0 <= j < k + 1 implies #[trigger] entries.deep_view()[j]
                == self.entries.deep_view()[j] by {
                assert(entries@.len() == k + 1);
                if j < k {
                    assert(entries@[j] == before_view[j]);
                    assert(entries.deep_view()[j] == before[j]);
                }
            }
            assert(entries.deep_view() =~= self.entries.deep_view().subrange(0, k + 1));
            k = k + 1;
        }
        assert(entries.deep_view() =~= self.entries.deep_view());
        Dict { entries }
    }
}

impl PartialEq for Dict {
    /// Two dictionaries are equal when they map the same keys to the same
    /// values, in whatever order the keys came.
    fn eq(&self, other: &Dict) -> (same: bool) {
        proof {
            use_type_invariant(self);
            use_type_invariant(other);
            lemma_entries_map_len(self.entries());
            lemma_entries_map_len(other.entries());
        }
        if self.entries.len() != other.entries.len() {
            return false;
        }
        let mut k: usize = 0;
        while k < self.entries.len()
            invariant
                k <= self.entries().len(),
                self.wf(),
                other.wf(),
                self.entries().len() == self.entries@.len(),
                forall|j: int|
                    0 <= j < k ==> entries_get(other.entries(), (#[trigger] self.entries()[j]).0)
                        == Some(self.entries()[j].1),
            decreases self.entries().len() - k,
        {
            proof {
                lemma_entries_get_at(self.entries(), k as int);
            }
            match other.get(self.entries[k].0.as_str()) {
                Some(value) => {
                    if !same_text(value.as_str(), self.entries[k].1.as_str()) {
                        assert(self@[self.entries()[k as int].0] != other@[self.entries()[k as int].0]);
                        return false;
                    }
                },
                None => {
                    assert(self@.dom().contains(self.entries()[k as int].0));
                    assert(!other@.dom().contains(self.entries()[k as int].0));
                    return false;
                },
            }
            k = k + 1;
        }
        proof {
            assert forall|key: Seq<char>| self@.dom().contains(key) implies other@.dom().contains(
                key,
            ) && self@[key] == other@[key] by {
                let j = entries_position(self.entries(), key);
                lemma_entries_get_at(self.entries(), j);
            }
            lemma_subset_equality(self@.dom(), other@.dom());
            assert(self@ =~= other@);
        }
        true
    }
}

impl vstd::std_specs::cmp::PartialEqSpecImpl for Dict {
    open spec fn obeys_eq_spec() -> bool {
        true
    }

    open spec fn eq_spec(&self, other: &Dict) -> bool {
        self@ == other@
    }
}

impl Eq for Dict {

}

} // verus!
