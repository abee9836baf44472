//! The structured, path-free error that every viewer operation reports.
use vstd::prelude::*;

use crate::code;

verus! {

/// A recoverable error with a stable code, a user-facing message and numeric
/// parameters, each key at most once (`keys_distinct`) in the errors this
/// library makes. Should a list hold a key twice, its later entry is the one
/// the parameter map shows.
#[derive(Clone, Debug)]
pub struct ViewerError {
    pub code: String,
    pub message: String,
    pub parameters: Vec<(String, u64)>,
}

/// The parameter map described by an ordered list of entries (last entry wins).
pub open spec fn parameter_map(entries: Seq<(String, u64)>) -> Map<Seq<char>, u64>
    decreases entries.len(),
{
    if entries.len() == 0 {
        Map::empty()
    } else {
        parameter_map(entries.drop_last()).insert(entries.last().0@, entries.last().1)
    }
}

/// No key occurs twice among the entries.
pub open spec fn keys_distinct(entries: Seq<(String, u64)>) -> bool {
    forall|i: int, j: int| 0 <= i < j < entries.len() ==> #[trigger] entries[i].0@ != #[trigger] entries[j].0@
}

/// Setting the value of the last entry for a key sets that key in the map.
proof fn lemma_parameter_map_update(entries: Seq<(String, u64)>, k: int, value: u64)
    requires
        0 <= k < entries.len(),
        forall|j: int| k < j < entries.len() ==> #[trigger] entries[j].0@ != entries[k].0@,
    ensures
        parameter_map(entries.update(k, (entries[k].0, value))) =~= parameter_map(entries).insert(
            entries[k].0@,
            value,
        ),
    decreases entries.len(),
{
    let updated = entries.update(k, (entries[k].0, value));
    if k == entries.len() - 1 {
        assert(updated.drop_last() =~= entries.drop_last());
    } else {
        let shorter = entries.drop_last();
        assert(updated.drop_last() =~= shorter.update(k, (shorter[k].0, value)));
        lemma_parameter_map_update(shorter, k, value);
    }
}

/// Entries after position `i` that do not mention `key` do not change what the
/// parameter map says about `key`.
proof fn lemma_parameter_map_suffix(entries: Seq<(String, u64)>, key: Seq<char>, i: int)
    requires
        0 <= i <= entries.len(),
        forall|j: int| i <= j < entries.len() ==> #[trigger] entries[j].0@ != key,
    ensures
        parameter_map(entries).contains_key(key) == parameter_map(entries.take(i)).contains_key(key),
        parameter_map(entries).contains_key(key) ==> parameter_map(entries)[key] == parameter_map(
            entries.take(i),
        )[key],
    decreases entries.len() - i,
{
    if i < entries.len() {
        lemma_parameter_map_suffix(entries.drop_last(), key, i);
        assert(entries.drop_last().take(i) =~= entries.take(i));
    } else {
        assert(entries.take(i) =~= entries);
    }
}

impl ViewerError {
    pub open spec fn parameters_view(&self) -> Map<Seq<char>, u64> {
        parameter_map(self.parameters@)
    }

    /// An error with the given code and message and no parameters.
    pub fn new(code: &str, message: &str) -> (e: Self)
        ensures
            e.code@ == code@,
            e.message@ == message@,
            e.parameters@.len() == 0,
            e.parameters_view() == Map::<Seq<char>, u64>::empty(),
    {
        ViewerError { code: code.to_owned(), message: message.to_owned(), parameters: Vec::new() }
    }

    /// An error with the given code and an owned message.
    pub fn with_message(code: &str, message: String) -> (e: Self)
        ensures
            e.code@ == code@,
            e.message@ == message@,
            e.parameters@.len() == 0,
            e.parameters_view() == Map::<Seq<char>, u64>::empty(),
    {
        ViewerError { code: code.to_owned(), message, parameters: Vec::new() }
    }

    /// Adds a numeric parameter, or replaces the value of the key's entry.
    pub fn with_parameter(self, key: &str, value: u64) -> (e: Self)
        ensures
            e.code@ == self.code@,
            e.message@ == self.message@,
            e.parameters_view() == self.parameters_view().insert(key@, value),
            keys_distinct(self.parameters@) ==> keys_distinct(e.parameters@),
            e.parameters@.len() == self.parameters@.len() + (if self.parameters_view().contains_key(key@) {
                0int
            } else {
                1int
            }),
    {
        let mut e = self;
        let ghost before = e.parameters@;
        let wanted = key.to_owned();
        let mut i = e.parameters.len();
        while i > 0
            invariant
                i <= before.len(),
                e.parameters@ == before,
                before == self.parameters@,
                e.code@ == self.code@,
                e.message@ == self.message@,
                wanted@ == key@,
                forall|j: int| i <= j < before.len() ==> #[trigger] before[j].0@ != key@,
            decreases i,
        {
            if e.parameters[i - 1].0 == wanted {
                let k = i - 1;
                let name = e.parameters[k].0.clone();
                proof {
                    lemma_parameter_map_update(before, k as int, value);
                    lemma_parameter_map_suffix(before, key@, i as int);
                    assert(before.take(i as int).drop_last() =~= before.take(k as int));
                }
                assert(before[k as int].0@ == key@);
                e.parameters.set(k, (name, value));
                assert(e.parameters@ =~= before.update(k as int, (before[k as int].0, value)));
                assert forall|a: int| 0 <= a < e.parameters@.len() implies #[trigger] e.parameters@[a].0@
                    == before[a].0@ by {}
                return e;
            }
            i = i - 1;
        }
        proof {
            lemma_parameter_map_suffix(before, key@, 0);
            assert(before.take(0) =~= Seq::<(String, u64)>::empty());
        }
        e.parameters.push((wanted, value));
        assert(e.parameters@.drop_last() =~= before);
        e
    }

    pub fn invalid_path(message: &str) -> (e: Self)
        ensures
            e.code@ == code::INVALID_PATH@,
            e.message@ == message@,
            e.parameters_view() == Map::<Seq<char>, u64>::empty(),
    {
        Self::new(code::INVALID_PATH, message)
    }

    pub fn io(message: &str) -> (e: Self)
        ensures
            e.code@ == code::IO_ERROR@,
            e.message@ == message@,
            e.parameters_view() == Map::<Seq<char>, u64>::empty(),
    {
        Self::new(code::IO_ERROR, message)
    }

    pub fn corrupt(message: &str) -> (e: Self)
        ensures
            e.code@ == code::CORRUPT_IMAGE@,
            e.message@ == message@,
            e.parameters_view() == Map::<Seq<char>, u64>::empty(),
    {
        Self::new(code::CORRUPT_IMAGE, message)
    }

    pub fn limit(code: &str, message: &str) -> (e: Self)
        ensures
            e.code@ == code@,
            e.message@ == message@,
            e.parameters_view() == Map::<Seq<char>, u64>::empty(),
    {
        Self::new(code, message)
    }

    pub fn deadline_exceeded(limit_ms: u64) -> (e: Self)
        ensures
            e.code@ == code::DECODE_DEADLINE_EXCEEDED@,
            e.message@ == "圖片解碼超過安全期限。"@,
            e.parameters_view() == map!["limitMs"@ => limit_ms],
    {
        Self::new(code::DECODE_DEADLINE_EXCEEDED, "圖片解碼超過安全期限。").with_parameter(
            "limitMs",
            limit_ms,
        )
    }

    pub fn decoder_panic() -> (e: Self)
        ensures
            e.code@ == code::DECODER_PANIC@,
            e.message@ == "圖片解碼器發生內部錯誤。"@,
            e.parameters_view() == Map::<Seq<char>, u64>::empty(),
    {
        Self::new(code::DECODER_PANIC, "圖片解碼器發生內部錯誤。")
    }

    /// The value of a parameter, if present.
    pub fn parameter(&self, key: &str) -> (r: Option<u64>)
        ensures
            r == (if self.parameters_view().contains_key(key@) {
                Some(self.parameters_view()[key@])
            } else {
                None::<u64>
            }),
    {
        let wanted = key.to_owned();
        let mut i = self.parameters.len();
        while i > 0
            invariant
                i <= self.parameters@.len(),
                wanted@ == key@,
                forall|j: int| i <= j < self.parameters@.len() ==> #[trigger] self.parameters@[j].0@ != key@,
            decreases i,
        {
            if self.parameters[i - 1].0 == wanted {
                proof {
                    lemma_parameter_map_suffix(self.parameters@, key@, i as int);
                    assert(self.parameters@.take(i as int).drop_last() =~= self.parameters@.take(i - 1));
                }
                return Some(self.parameters[i - 1].1);
            }
            i = i - 1;
        }
        proof {
            lemma_parameter_map_suffix(self.parameters@, key@, 0);
            assert(self.parameters@.take(0) =~= Seq::<(String, u64)>::empty());
        }
        None
    }

    /// A diagnostic rendering of the error: its code, a colon and its message.
    pub fn to_display_string(&self) -> (s: String)
        ensures
            s@ == self.code@ + ": "@ + self.message@,
    {
        let mut s = self.code.clone();
        s.append(": ");
        s.append(self.message.as_str());
        s
    }
}

} // verus!
